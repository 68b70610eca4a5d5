use vstd::prelude::*;

verus! {

/// A source of interrupts that the interrupt controller knows.
#[derive(Copy, Clone, Debug, PartialEq, Eq, Structural)]
pub enum Interrupt {
    Timer1,
    Timer3,
    Usb,
    Gpio0,
    Gpio1,
    Gpio2,
    Gpio3,
    Uart,
}

/// One of the two banks of thirty-two lines each into which the controller
/// divides its sources.
#[derive(Copy, Clone, Debug, PartialEq, Eq, Structural)]
pub enum Bank {
    /// Lines 0 to 31.
    First,
    /// Lines 32 to 63.
    Second,
}

/// The number of interrupt sources.
pub const SOURCES: usize = 8;

impl Interrupt {
    /// The line of the source at the interrupt controller.
    pub open spec fn line(self) -> u32 {
        match self {
            Interrupt::Timer1 => 1,
            Interrupt::Timer3 => 3,
            Interrupt::Usb => 9,
            Interrupt::Gpio0 => 49,
            Interrupt::Gpio1 => 50,
            Interrupt::Gpio2 => 51,
            Interrupt::Gpio3 => 52,
            Interrupt::Uart => 57,
        }
    }

    /// The sources in the order in which pending interrupts are served.
    pub open spec fn priority() -> Seq<Interrupt> {
        seq![
            Interrupt::Timer1,
            Interrupt::Timer3,
            Interrupt::Usb,
            Interrupt::Gpio0,
            Interrupt::Gpio1,
            Interrupt::Gpio2,
            Interrupt::Gpio3,
            Interrupt::Uart,
        ]
    }

    /// The bank that holds the line of the source.
    pub open spec fn bank(self) -> Bank {
        if self.line() < 32 {
            Bank::First
        } else {
            Bank::Second
        }
    }

    /// The position of the line of the source within its bank.
    pub open spec fn bit(self) -> u32 {
        (self.line() % 32) as u32
    }

    /// Whether the source is pending, given the pending registers of the two
    /// banks: the bit of its line is set in the register of its bank.
    pub open spec fn pending_in(self, first: u32, second: u32) -> bool {
        let register = if self.bank() == Bank::First {
            first
        } else {
            second
        };
        register & (1u32 << self.bit()) != 0
    }

    /// Returns the line of the source at the interrupt controller.
    pub fn number(self) -> (line: u32)
        ensures
            line == self.line(),
            line < 64,
    {
        match self {
            Interrupt::Timer1 => 1,
            Interrupt::Timer3 => 3,
            Interrupt::Usb => 9,
            Interrupt::Gpio0 => 49,
            Interrupt::Gpio1 => 50,
            Interrupt::Gpio2 => 51,
            Interrupt::Gpio3 => 52,
            Interrupt::Uart => 57,
        }
    }

    /// Returns the source at position `rank` in the order of service.
    pub fn by_priority(rank: usize) -> (source: Interrupt)
        requires
            rank < SOURCES,
        ensures
            source == Interrupt::priority()[rank as int],
    {
        if rank == 0 {
            Interrupt::Timer1
        } else if rank == 1 {
            Interrupt::Timer3
        } else if rank == 2 {
            Interrupt::Usb
        } else if rank == 3 {
            Interrupt::Gpio0
        } else if rank == 4 {
            Interrupt::Gpio1
        } else if rank == 5 {
            Interrupt::Gpio2
        } else if rank == 6 {
            Interrupt::Gpio3
        } else {
            Interrupt::Uart
        }
    }

    /// Returns the bank of the source and, as a mask for the registers of
    /// that bank, the bit of its line.
    pub fn mask(self) -> (place: (Bank, u32))
        ensures
            place.0 == self.bank(),
            place.1 == 1u32 << self.bit(),
    {
        let line: u32 = self.number();
        if line < 32 {
            (Bank::First, 1u32 << line)
        } else {
            (Bank::Second, 1u32 << (line - 32))
        }
    }

    /// Tells whether the source is pending, given the pending registers of
    /// the two banks.
    pub fn is_pending(self, first: u32, second: u32) -> (pending: bool)
        ensures
            pending == self.pending_in(first, second),
    {
        let place = self.mask();
        let register: u32 = match place.0 {
            Bank::First => first,
            Bank::Second => second,
        };
        register & place.1 != 0
    }
}

/// Returns the pending source that is served first, given the pending
/// registers of the two banks, or `None` where no known source is pending.
pub fn first_pending(first: u32, second: u32) -> (source: Option<Interrupt>)
    ensures
        match source {
            Some(found) => exists|rank: int|
                {
                    &&& 0 <= rank < SOURCES
                    &&& found == #[trigger] Interrupt::priority()[rank]
                    &&& found.pending_in(first, second)
                    &&& forall|earlier: int|
                        0 <= earlier < rank ==> !(#[trigger] Interrupt::priority()[earlier]).pending_in(
                            first,
                            second,
                        )
                },
            None => forall|rank: int|
                0 <= rank < SOURCES ==> !(#[trigger] Interrupt::priority()[rank]).pending_in(
                    first,
                    second,
                ),
        },
{
    let mut rank: usize = 0;
    while rank < SOURCES
        invariant
            rank <= SOURCES,
            forall|earlier: int|
                0 <= earlier < rank ==> !(#[trigger] Interrupt::priority()[earlier]).pending_in(
                    first,
                    second,
                ),
        decreases SOURCES - rank,
    {
        let source = Interrupt::by_priority(rank);
        if source.is_pending(first, second) {
            return Some(source);
        }
        rank += 1;
    }
    None
}

} // verus!
