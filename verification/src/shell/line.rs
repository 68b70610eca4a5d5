use vstd::prelude::*;
use vstd::utf8::valid_utf8;
use crate::shell::args::MAX_ARGS;
use crate::shell::command::{Command, Error};
use crate::shell::words::words;
use crate::text::utf8;

verus! {

/// The most bytes that a command line can have.
pub const LINE_CAPACITY: usize = 512;

/// The byte that ends a line.
pub const NEWLINE: u8 = 0x0a;

/// The other byte that ends a line.
pub const CARRIAGE_RETURN: u8 = 0x0d;

/// The byte that takes the last byte of the line back.
pub const BACKSPACE: u8 = 8;

/// The other byte that takes the last byte of the line back.
pub const DELETE: u8 = 127;

/// What the console shows in answer to a byte that was typed.
#[derive(Debug, PartialEq, Eq, Copy, Clone, Structural)]
pub enum Echo {
    /// Nothing.
    Nothing,
    /// The byte itself, which has joined the line.
    Byte(u8),
    /// The byte, a space and the byte again, which wipes the last character
    /// of the line off the console. The character has left the line.
    Erase(u8),
    /// The end of the line. The line is complete.
    Submit,
}

/// The command line that is being typed.
#[derive(Debug)]
pub struct LineBuffer {
    bytes: Vec<u8>,
}

impl View for LineBuffer {
    type V = Seq<u8>;

    closed spec fn view(&self) -> Seq<u8> {
        self.bytes@
    }
}

impl LineBuffer {
    /// Whether the line is within its capacity, as every line is that began
    /// empty and was typed byte by byte.
    pub open spec fn wf(self) -> bool {
        self@.len() <= LINE_CAPACITY
    }

    /// The line after `byte` has been typed behind `line`. A byte that ends
    /// the line leaves the line as it is. A full line takes nothing more, and
    /// gives nothing back either. Otherwise a backspace takes the last byte
    /// off, and any other byte joins the end.
    pub open spec fn typed(line: Seq<u8>, byte: u8) -> Seq<u8> {
        if byte == NEWLINE || byte == CARRIAGE_RETURN {
            line
        } else if line.len() >= LINE_CAPACITY {
            line
        } else if byte == BACKSPACE || byte == DELETE {
            if line.len() > 0 {
                line.drop_last()
            } else {
                line
            }
        } else {
            line.push(byte)
        }
    }

    /// What the console shows when `byte` is typed behind `line`.
    pub open spec fn shown(line: Seq<u8>, byte: u8) -> Echo {
        if byte == NEWLINE || byte == CARRIAGE_RETURN {
            Echo::Submit
        } else if line.len() >= LINE_CAPACITY {
            Echo::Nothing
        } else if byte == BACKSPACE || byte == DELETE {
            if line.len() > 0 {
                Echo::Erase(byte)
            } else {
                Echo::Nothing
            }
        } else {
            Echo::Byte(byte)
        }
    }

    /// Returns an empty line.
    pub fn new() -> (line: LineBuffer)
        ensures
            line@ == Seq::<u8>::empty(),
            line.wf(),
    {
        LineBuffer { bytes: Vec::new() }
    }

    /// Takes the byte `byte` that was typed and tells what the console shows
    /// in answer.
    pub fn feed(&mut self, byte: u8) -> (echo: Echo)
        ensures
            final(self)@ == LineBuffer::typed(old(self)@, byte),
            echo == LineBuffer::shown(old(self)@, byte),
            old(self).wf() ==> final(self).wf(),
    {
        if byte == NEWLINE || byte == CARRIAGE_RETURN {
            return Echo::Submit;
        }
        if self.bytes.len() >= LINE_CAPACITY {
            return Echo::Nothing;
        }
        if byte == BACKSPACE || byte == DELETE {
            if self.bytes.len() > 0 {
                self.bytes.pop();
                Echo::Erase(byte)
            } else {
                Echo::Nothing
            }
        } else {
            self.bytes.push(byte);
            Echo::Byte(byte)
        }
    }

    /// Hands out the line and begins an empty one.
    pub fn take(&mut self) -> (line: Vec<u8>)
        ensures
            line@ == old(self)@,
            final(self)@ == Seq::<u8>::empty(),
            final(self).wf(),
    {
        let mut line: Vec<u8> = Vec::new();
        core::mem::swap(&mut self.bytes, &mut line);
        line
    }
}

/// What the shell makes of a complete line.
pub enum Reading<'a> {
    /// The line is a command.
    Run(Command<'a>),
    /// The line holds too many arguments: the shell says so.
    TooManyArgs,
    /// The line holds nothing: the shell says nothing.
    Blank,
    /// The line is no text: the shell sounds the bell.
    Unreadable,
}

/// Reads a complete line. A line that is not well-formed UTF-8 is
/// unreadable. Any other line is parsed as a command.
pub fn read_line<'a>(line: &'a [u8]) -> (reading: Reading<'a>)
    ensures
        match reading {
            Reading::Run(command) => {
                &&& valid_utf8(line@)
                &&& command.line() == line@
                &&& command@ == words(line@)
                &&& 1 <= command@.len() <= MAX_ARGS
            },
            Reading::TooManyArgs => valid_utf8(line@) && words(line@).len() > MAX_ARGS,
            Reading::Blank => valid_utf8(line@) && words(line@).len() == 0,
            Reading::Unreadable => !valid_utf8(line@),
        },
{
    if utf8(line).is_none() {
        return Reading::Unreadable;
    }
    match Command::parse(line) {
        Ok(command) => Reading::Run(command),
        Err(Error::TooManyArgs) => Reading::TooManyArgs,
        Err(Error::Empty) => Reading::Blank,
    }
}

} // verus!
