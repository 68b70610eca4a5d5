use vstd::prelude::*;
use vstd::slice::slice_subrange;
use crate::shell::args::{empty, get, held, len, try_push, Args, MAX_ARGS};
use crate::shell::number::{number, parse_number};
use crate::shell::words::{
    lemma_run_is_last_word, lemma_space_adds_nothing, lemma_words_grow, lemma_words_well_formed,
    no_space, word_may_begin, words, SPACE,
};

verus! {

/// Why a line is no command.
#[derive(Debug, PartialEq, Eq, Copy, Clone, Structural)]
pub enum Error {
    /// The line holds no argument.
    Empty,
    /// The line holds more arguments than a command can have.
    TooManyArgs,
}

/// A single shell command: a line and the arguments into which it divides.
pub struct Command<'a> {
    line: &'a [u8],
    args: Args,
}

/// What a command asks the shell to do. The arguments behind the first are
/// what the action works on.
#[derive(Debug, PartialEq, Eq, Copy, Clone, Structural)]
pub enum Action {
    /// Write the arguments to the console, each followed by a space, and end
    /// the line.
    Echo,
    /// Enter the drawing mode.
    Draw,
    /// Draw the mascot on the screen.
    Raccoon,
    /// Draw the beginning of each named file on the screen.
    Cat,
    /// Draw the names of the entries of each named directory on the screen.
    Ls,
    /// Clear the screen.
    Clear,
    /// Draw the arguments behind the second on the screen, enlarged by the
    /// given scale and each followed by a space, and end the line.
    Print(usize),
    /// Do nothing.
    Nothing,
    /// Reset the machine.
    Reboot,
    /// Leave for the bootloader.
    Help,
    /// Report that the command is unknown.
    Unknown,
}

/// The bytes of the word `echo`.
pub open spec fn word_echo() -> Seq<u8> {
    seq![0x65u8, 0x63, 0x68, 0x6f]
}

/// The bytes of the word `draw`.
pub open spec fn word_draw() -> Seq<u8> {
    seq![0x64u8, 0x72, 0x61, 0x77]
}

/// The bytes of the word `raccoon`.
pub open spec fn word_raccoon() -> Seq<u8> {
    seq![0x72u8, 0x61, 0x63, 0x63, 0x6f, 0x6f, 0x6e]
}

/// The bytes of the word `cat`.
pub open spec fn word_cat() -> Seq<u8> {
    seq![0x63u8, 0x61, 0x74]
}

/// The bytes of the word `ls`.
pub open spec fn word_ls() -> Seq<u8> {
    seq![0x6cu8, 0x73]
}

/// The bytes of the word `clear`.
pub open spec fn word_clear() -> Seq<u8> {
    seq![0x63u8, 0x6c, 0x65, 0x61, 0x72]
}

/// The bytes of the word `print`.
pub open spec fn word_print() -> Seq<u8> {
    seq![0x70u8, 0x72, 0x69, 0x6e, 0x74]
}

/// The bytes of the word `reboot`.
pub open spec fn word_reboot() -> Seq<u8> {
    seq![0x72u8, 0x65, 0x62, 0x6f, 0x6f, 0x74]
}

/// The bytes of the word `help`.
pub open spec fn word_help() -> Seq<u8> {
    seq![0x68u8, 0x65, 0x6c, 0x70]
}

/// The scale at which `print` draws where its argument names none.
pub const DEFAULT_SCALE: usize = 1;

impl Action {
    /// The action that a command asks for, by the bytes of its first
    /// argument and, for `print`, of its second, which gives the scale.
    pub open spec fn of(path: Seq<u8>, second: Option<Seq<u8>>) -> Action {
        if path == word_echo() {
            Action::Echo
        } else if path == word_draw() {
            Action::Draw
        } else if path == word_raccoon() {
            Action::Raccoon
        } else if path == word_cat() {
            Action::Cat
        } else if path == word_ls() {
            Action::Ls
        } else if path == word_clear() {
            Action::Clear
        } else if path == word_print() {
            match second {
                Some(scale) => Action::Print(
                    match number(scale) {
                        Some(n) => n,
                        None => DEFAULT_SCALE,
                    },
                ),
                None => Action::Nothing,
            }
        } else if path == word_reboot() {
            Action::Reboot
        } else if path == word_help() {
            Action::Help
        } else {
            Action::Unknown
        }
    }
}

/// Tells whether two runs of bytes are the same.
fn same(left: &[u8], right: &[u8]) -> (equal: bool)
    ensures
        equal == (left@ == right@),
{
    if left.len() != right.len() {
        return false;
    }
    let mut i: usize = 0;
    while i < left.len()
        invariant
            i <= left@.len(),
            left@.len() == right@.len(),
            forall|k: int| 0 <= k < i ==> left@[k] == right@[k],
        decreases left@.len() - i,
    {
        if left[i] != right[i] {
            return false;
        }
        i += 1;
    }
    assert(left@ =~= right@);
    true
}

impl<'a> View for Command<'a> {
    type V = Seq<(usize, usize)>;

    /// The arguments of the command, each as the span of its bytes in the
    /// line.
    closed spec fn view(&self) -> Seq<(usize, usize)> {
        held(self.args)
    }
}

impl<'a> Command<'a> {
    /// The line that the command was parsed from.
    pub closed spec fn line(self) -> Seq<u8> {
        self.line@
    }

    #[verifier::type_invariant]
    spec fn words_of_line(self) -> bool {
        &&& held(self.args) == words(self.line@)
        &&& 1 <= held(self.args).len() <= MAX_ARGS
    }

    /// The bytes of argument `i`.
    pub open spec fn arg_bytes(self, i: int) -> Seq<u8> {
        self.line().subrange(self@[i].0 as int, self@[i].1 as int)
    }

    /// Parses a command from the line `line`, whose arguments are its words:
    /// the runs of bytes between its spaces.
    ///
    /// A line without any argument gives `Error::Empty`, a line with more than
    /// `MAX_ARGS` arguments `Error::TooManyArgs`.
    pub fn parse(line: &'a [u8]) -> (parsed: Result<Command<'a>, Error>)
        ensures
            match parsed {
                Ok(command) => {
                    &&& command.line() == line@
                    &&& command@ == words(line@)
                    &&& 1 <= command@.len() <= MAX_ARGS
                },
                Err(Error::Empty) => words(line@).len() == 0,
                Err(Error::TooManyArgs) => words(line@).len() > MAX_ARGS,
            },
    {
        let mut args = empty();
        let mut i: usize = 0;
        let mut in_word = false;
        let mut start: usize = 0;
        proof {
            assert(line@.take(0) == Seq::<u8>::empty());
        }
        while i < line.len()
            invariant
                i <= line@.len(),
                in_word ==> {
                    &&& start < i
                    &&& word_may_begin(line@, start as int)
                    &&& no_space(line@, start as int, i as int)
                    &&& held(args) == words(line@.take(start as int))
                },
                !in_word ==> held(args) == words(line@.take(i as int)),
                !in_word ==> word_may_begin(line@, i as int),
            decreases line@.len() - i,
        {
            if line[i] == SPACE {
                if in_word {
                    proof {
                        lemma_run_is_last_word(line@, start as int, i as int);
                        lemma_words_grow(line@, i as int);
                    }
                    match try_push(&mut args, (start, i)) {
                        Ok(_) => {},
                        Err(_) => {
                            return Err(Error::TooManyArgs);
                        },
                    }
                    in_word = false;
                }
                proof {
                    lemma_space_adds_nothing(line@, i as int);
                }
            } else {
                if !in_word {
                    in_word = true;
                    start = i;
                }
            }
            i += 1;
        }
        proof {
            assert(line@.take(line@.len() as int) == line@);
        }
        if in_word {
            proof {
                lemma_run_is_last_word(line@, start as int, i as int);
            }
            match try_push(&mut args, (start, i)) {
                Ok(_) => {},
                Err(_) => {
                    return Err(Error::TooManyArgs);
                },
            }
        }
        if len(&args) == 0 {
            return Err(Error::Empty);
        }
        Ok(Command { line, args })
    }

    /// Returns the number of arguments of the command, the path among them.
    pub fn count(&self) -> (count: usize)
        ensures
            count == self@.len(),
            1 <= count <= MAX_ARGS,
            self@ == words(self.line()),
    {
        proof {
            use_type_invariant(self);
        }
        len(&self.args)
    }

    /// Returns argument `i` of the command.
    pub fn arg(&self, i: usize) -> (bytes: &'a [u8])
        requires
            i < self@.len(),
        ensures
            bytes@ == self.arg_bytes(i as int),
            bytes@.len() > 0,
            no_space(bytes@, 0, bytes@.len() as int),
    {
        let total: usize = self.line.len();
        proof {
            use_type_invariant(self);
            lemma_words_well_formed(self.line@);
        }
        let span = get(&self.args, i);
        let ghost word = words(self.line@)[i as int];
        assert(span == word);
        let bytes = slice_subrange(self.line, span.0, span.1);
        assert forall|k: int| 0 <= k < bytes@.len() implies #[trigger] bytes@[k] != SPACE by {
            assert(bytes@[k] == self.line@[span.0 + k]);
        }
        bytes
    }

    /// Returns the path of the command, which is its first argument.
    pub fn path(&self) -> (bytes: &'a [u8])
        ensures
            self@.len() >= 1,
            bytes@ == self.arg_bytes(0),
    {
        proof {
            use_type_invariant(self);
        }
        self.arg(0)
    }

    /// The action that the command asks for.
    pub open spec fn action(self) -> Action {
        Action::of(
            self.arg_bytes(0),
            if self@.len() > 1 {
                Some(self.arg_bytes(1))
            } else {
                None
            },
        )
    }

    /// Tells what the command asks the shell to do, by its path: `echo`,
    /// `draw`, `raccoon`, `cat`, `ls`, `clear`, `print`, `reboot` or `help`.
    /// Any other path is an unknown command. The second argument of `print`
    /// is the scale, taken as one where it is no number; without it `print`
    /// does nothing.
    pub fn process(&self) -> (action: Action)
        ensures
            action == self.action(),
    {
        let path = self.path();
        let echo: [u8; 4] = [0x65, 0x63, 0x68, 0x6f];
        let draw: [u8; 4] = [0x64, 0x72, 0x61, 0x77];
        let raccoon: [u8; 7] = [0x72, 0x61, 0x63, 0x63, 0x6f, 0x6f, 0x6e];
        let cat: [u8; 3] = [0x63, 0x61, 0x74];
        let ls: [u8; 2] = [0x6c, 0x73];
        let clear: [u8; 5] = [0x63, 0x6c, 0x65, 0x61, 0x72];
        let print: [u8; 5] = [0x70, 0x72, 0x69, 0x6e, 0x74];
        let reboot: [u8; 6] = [0x72, 0x65, 0x62, 0x6f, 0x6f, 0x74];
        let help: [u8; 4] = [0x68, 0x65, 0x6c, 0x70];
        proof {
            assert(echo@ =~= word_echo());
            assert(draw@ =~= word_draw());
            assert(raccoon@ =~= word_raccoon());
            assert(cat@ =~= word_cat());
            assert(ls@ =~= word_ls());
            assert(clear@ =~= word_clear());
            assert(print@ =~= word_print());
            assert(reboot@ =~= word_reboot());
            assert(help@ =~= word_help());
        }
        if same(path, echo.as_slice()) {
            Action::Echo
        } else if same(path, draw.as_slice()) {
            Action::Draw
        } else if same(path, raccoon.as_slice()) {
            Action::Raccoon
        } else if same(path, cat.as_slice()) {
            Action::Cat
        } else if same(path, ls.as_slice()) {
            Action::Ls
        } else if same(path, clear.as_slice()) {
            Action::Clear
        } else if same(path, print.as_slice()) {
            if self.count() > 1 {
                match parse_number(self.arg(1)) {
                    Some(scale) => Action::Print(scale),
                    None => Action::Print(DEFAULT_SCALE),
                }
            } else {
                Action::Nothing
            }
        } else if same(path, reboot.as_slice()) {
            Action::Reboot
        } else if same(path, help.as_slice()) {
            Action::Help
        } else {
            Action::Unknown
        }
    }
}

} // verus!
