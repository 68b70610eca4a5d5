use vstd::prelude::*;

verus! {

/// The core tag: the first tag of a list.
#[derive(Debug, Copy, Clone, PartialEq, Eq, Structural)]
pub struct Core {
    pub flags: u32,
    pub page_size: u32,
    pub root_dev: u32,
}

/// A memory tag: one region of physical memory.
#[derive(Debug, Copy, Clone, PartialEq, Eq, Structural)]
pub struct Mem {
    pub size: u32,
    pub start: u32,
}

/// A tag of the list that the firmware leaves for the kernel.
#[derive(Debug, Copy, Clone)]
pub enum Atag<'a> {
    Core(Core),
    Mem(Mem),
    /// The kernel command line.
    Cmd(&'a str),
    /// A tag of a kind that the kernel does not read, with its identifier.
    Unknown(u32),
    /// The tag that ends the list.
    End,
}

impl<'a> Atag<'a> {
    /// Returns `Some` if this is a `Core` tag. Otherwise returns `None`.
    pub fn core_tag(self) -> (found: Option<Core>)
        ensures
            found == match self {
                Atag::Core(tag) => Some(tag),
                _ => None,
            },
    {
        match self {
            Atag::Core(tag) => Some(tag),
            _ => None,
        }
    }

    /// Returns `Some` if this is a `Mem` tag. Otherwise returns `None`.
    pub fn mem(self) -> (mem: Option<Mem>)
        ensures
            mem == match self {
                Atag::Mem(mem) => Some(mem),
                _ => None,
            },
    {
        match self {
            Atag::Mem(mem) => Some(mem),
            _ => None,
        }
    }

    /// Returns `Some` with the command line if this is a `Cmd` tag.
    /// Otherwise returns `None`.
    pub fn cmd(self) -> (cmd: Option<&'a str>)
        ensures
            cmd == match self {
                Atag::Cmd(cmd) => Some(cmd),
                _ => None,
            },
    {
        match self {
            Atag::Cmd(cmd) => Some(cmd),
            _ => None,
        }
    }
}

impl<'a> From<Core> for Atag<'a> {
    fn from(tag: Core) -> (atag: Atag<'a>)
        ensures
            atag == Atag::Core(tag),
    {
        Atag::Core(tag)
    }
}

impl<'a> vstd::std_specs::convert::FromSpecImpl<Core> for Atag<'a> {
    open spec fn obeys_from_spec() -> bool {
        true
    }

    open spec fn from_spec(tag: Core) -> Atag<'a> {
        Atag::Core(tag)
    }
}

impl<'a> From<Mem> for Atag<'a> {
    fn from(mem: Mem) -> (atag: Atag<'a>)
        ensures
            atag == Atag::Mem(mem),
    {
        Atag::Mem(mem)
    }
}

impl<'a> vstd::std_specs::convert::FromSpecImpl<Mem> for Atag<'a> {
    open spec fn obeys_from_spec() -> bool {
        true
    }

    open spec fn from_spec(mem: Mem) -> Atag<'a> {
        Atag::Mem(mem)
    }
}

} // verus!
