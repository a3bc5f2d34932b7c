//! The kernel shell: picks the command named by the submitted line and
//! completes command names.

use vstd::prelude::*;
use crate::terminal::{ReadLine, Terminal, CMDLINE_CAPACITY};
use crate::vga::{Color, VgaChar, is_screen_byte};

verus! {

/// A shell command.
#[derive(Clone, Copy, Debug, PartialEq, Eq, Structural)]
pub enum Command {
    Help,
    Clear,
    Font,
    System,
    Panic,
    Restart,
    Syscall,
}

/// The commands, in the order in which they are matched.
pub open spec fn command_at(i: int) -> Command {
    if i == 0 {
        Command::Help
    } else if i == 1 {
        Command::Clear
    } else if i == 2 {
        Command::Font
    } else if i == 3 {
        Command::System
    } else if i == 4 {
        Command::Panic
    } else if i == 5 {
        Command::Restart
    } else {
        Command::Syscall
    }
}

/// The number of commands.
pub const COMMAND_COUNT: usize = 7;

/// The name of `cmd`, as typed.
pub open spec fn name_of(cmd: Command) -> Seq<u8> {
    match cmd {
        Command::Help => seq![0x68u8, 0x65, 0x6C, 0x70],
        Command::Clear => seq![0x63u8, 0x6C, 0x65, 0x61, 0x72],
        Command::Font => seq![0x66u8, 0x6F, 0x6E, 0x74],
        Command::System => seq![0x73u8, 0x79, 0x73, 0x74, 0x65, 0x6D],
        Command::Panic => seq![0x70u8, 0x61, 0x6E, 0x69, 0x63],
        Command::Restart => seq![0x72u8, 0x65, 0x73, 0x74, 0x61, 0x72, 0x74],
        Command::Syscall => seq![0x73u8, 0x79, 0x73, 0x63, 0x61, 0x6C, 0x6C],
    }
}

/// Whether `name` is `line` (when `exact`) or starts with it.
pub open spec fn name_matches(name: Seq<u8>, line: Seq<u8>, exact: bool) -> bool {
    if exact {
        name == line
    } else {
        line.len() <= name.len() && name.subrange(0, line.len() as int) == line
    }
}

/// The first command, in matching order from `from`, whose name matches `line`.
pub open spec fn first_command_from(from: int, line: Seq<u8>, exact: bool) -> Option<Command>
    decreases COMMAND_COUNT - from,
{
    if from >= COMMAND_COUNT {
        None
    } else if name_matches(name_of(command_at(from)), line, exact) {
        Some(command_at(from))
    } else {
        first_command_from(from + 1, line, exact)
    }
}

/// The command named exactly `line`, if any.
pub open spec fn command_named(line: Seq<u8>) -> Option<Command> {
    first_command_from(0, line, true)
}

/// The first command whose name starts with `line`, if any.
pub open spec fn completion_of(line: Seq<u8>) -> Option<Command> {
    first_command_from(0, line, false)
}

impl Command {
    fn at(i: usize) -> (r: Command)
        requires
            i < COMMAND_COUNT,
        ensures
            r == command_at(i as int),
    {
        if i == 0 {
            Command::Help
        } else if i == 1 {
            Command::Clear
        } else if i == 2 {
            Command::Font
        } else if i == 3 {
            Command::System
        } else if i == 4 {
            Command::Panic
        } else if i == 5 {
            Command::Restart
        } else {
            Command::Syscall
        }
    }

    /// The name of the command, as typed.
    pub fn name(self) -> (r: Vec<u8>)
        ensures
            r@ == name_of(self),
    {
        let r = match self {
            Command::Help => vec![0x68u8, 0x65, 0x6C, 0x70],
            Command::Clear => vec![0x63u8, 0x6C, 0x65, 0x61, 0x72],
            Command::Font => vec![0x66u8, 0x6F, 0x6E, 0x74],
            Command::System => vec![0x73u8, 0x79, 0x73, 0x74, 0x65, 0x6D],
            Command::Panic => vec![0x70u8, 0x61, 0x6E, 0x69, 0x63],
            Command::Restart => vec![0x72u8, 0x65, 0x73, 0x74, 0x61, 0x72, 0x74],
            Command::Syscall => vec![0x73u8, 0x79, 0x73, 0x63, 0x61, 0x6C, 0x6C],
        };
        assert(r@ =~= name_of(self));
        r
    }
}

/// Whether `a` equals `b`.
fn bytes_equal(a: &[u8], b: &[u8]) -> (r: bool)
    ensures
        r == (a@ == b@),
{
    if a.len() != b.len() {
        return false;
    }
    let mut i: usize = 0;
    while i < a.len()
        invariant
            a@.len() == b@.len(),
            0 <= i <= a@.len(),
            a@.subrange(0, i as int) == b@.subrange(0, i as int),
        decreases a@.len() - i,
    {
        if a[i] != b[i] {
            assert(a@[i as int] != b@[i as int]);
            return false;
        }
        i = i + 1;
        assert(a@.subrange(0, i as int) =~= b@.subrange(0, i as int)) by {
            assert forall|k: int| 0 <= k < i implies a@[k] == b@[k] by {
                if k < i - 1 {
                    assert(a@.subrange(0, i - 1)[k] == b@.subrange(0, i - 1)[k]);
                }
            }
        }
    }
    assert(a@ =~= a@.subrange(0, a@.len() as int));
    assert(b@ =~= b@.subrange(0, b@.len() as int));
    true
}

/// Whether `a` starts with `prefix`.
fn starts_with(a: &[u8], prefix: &[u8]) -> (r: bool)
    ensures
        r == (prefix@.len() <= a@.len() && a@.subrange(0, prefix@.len() as int) == prefix@),
{
    if prefix.len() > a.len() {
        return false;
    }
    bytes_equal(vstd::slice::slice_subrange(a, 0, prefix.len()), prefix)
}

/// The shell's state: the command chosen by the last submitted line, if
/// it has not run yet.
pub struct Shell {
    to_execute: Option<Command>,
}

impl View for Shell {
    type V = Option<Command>;

    closed spec fn view(&self) -> Option<Command> {
        self.to_execute
    }
}

impl Shell {
    /// A shell with no command pending.
    pub fn new() -> (r: Self)
        ensures
            r@ is None,
    {
        Shell { to_execute: None }
    }

    /// Takes the pending command, if any, for the caller to carry out.
    pub fn run(&mut self) -> (r: Option<Command>)
        ensures
            r == old(self)@,
            final(self)@ is None,
    {
        let r = self.to_execute;
        self.to_execute = None;
        r
    }

    /// Makes the command named exactly by `line` the pending one (none when
    /// no command has that name).
    pub fn select(&mut self, line: &[u8])
        ensures
            final(self)@ == command_named(line@),
    {
        let mut i: usize = 0;
        while i < COMMAND_COUNT
            invariant
                0 <= i <= COMMAND_COUNT,
                command_named(line@) == first_command_from(i as int, line@, true),
            decreases COMMAND_COUNT - i,
        {
            let cmd = Command::at(i);
            let name = cmd.name();
            if bytes_equal(name.as_slice(), line) {
                self.to_execute = Some(cmd);
                return;
            }
            i = i + 1;
        }
        self.to_execute = None;
    }

    /// When the user's cursor ends a non-empty command line, replaces the
    /// line with the first command name it starts, if any.
    pub fn complete(&mut self, term: &mut Terminal)
        requires
            old(term).wf(),
        ensures
            final(term).wf(),
            final(term).layout_spec() == old(term).layout_spec(),
            final(term).scancodes() == old(term).scancodes(),
            final(self)@ == old(self)@,
            ({
                let line = old(term).line();
                if line.len() > 0 && old(term).line_cursor() == line.len() && completion_of(line) is Some {
                    final(term).line() == name_of(completion_of(line)->Some_0)
                } else {
                    final(term).line() == line
                }
            }),
    {
        let len = term.cmdline().len();
        if len == 0 || term.cmdline_cursor() != len {
            return;
        }
        let ghost line = term.line();
        let mut i: usize = 0;
        while i < COMMAND_COUNT
            invariant
                0 <= i <= COMMAND_COUNT,
                term.wf(),
                *term == *old(term),
                line == old(term).line(),
                line.len() > 0 && old(term).line_cursor() == line.len(),
                completion_of(line) == first_command_from(i as int, line, false),
            decreases COMMAND_COUNT - i,
        {
            let cmd = Command::at(i);
            let name = cmd.name();
            if starts_with(name.as_slice(), term.cmdline()) {
                proof {
                    lemma_names_are_screen_text(cmd);
                    assert(name_matches(name_of(command_at(i as int)), line, false));
                    assert(first_command_from(i as int, line, false) == Some(cmd));
                }
                term.replace_cmdline(name.as_slice());
                return;
            }
            i = i + 1;
        }
    }
}

/// Command names are short runs of screen characters.
proof fn lemma_names_are_screen_text(cmd: Command)
    ensures
        name_of(cmd).len() <= CMDLINE_CAPACITY,
        forall|k: int| 0 <= k < name_of(cmd).len() ==> is_screen_byte(#[trigger] name_of(cmd)[k]),
{
}

impl ReadLine for Shell {
    fn submit(&mut self, term: &mut Terminal) {
        self.select(term.cmdline());
    }

    fn auto_complete(&mut self, term: &mut Terminal) {
        self.complete(term);
    }
}

/// Writes the help text: a new line, then the commands.
pub fn help(term: &mut Terminal)
    requires
        old(term).wf(),
    ensures
        final(term).wf(),
        final(term).line() == old(term).line(),
{
    term.insert_linefeed();
    let mut i: usize = 0;
    while i < COMMAND_COUNT
        invariant
            0 <= i <= COMMAND_COUNT,
            term.wf(),
            term.line() == old(term).line(),
        decreases COMMAND_COUNT - i,
    {
        let name = Command::at(i).name();
        term.write_bytes(name.as_slice());
        term.insert_linefeed();
        i = i + 1;
    }
}

/// Clears the screen.
pub fn clear(term: &mut Terminal)
    requires
        old(term).wf(),
    ensures
        final(term).wf(),
        final(term).line() == Seq::<u8>::empty(),
{
    term.reset();
}

/// Shows every character the screen can draw, then a pair of blocks in each color.
pub fn font(term: &mut Terminal)
    requires
        old(term).wf(),
    ensures
        final(term).wf(),
        final(term).foreground_spec() == Color::White,
{
    term.insert_linefeed();
    let mut b: u16 = 1;
    while b <= 255
        invariant
            1 <= b <= 256,
            term.wf(),
        decreases 256 - b,
    {
        match VgaChar::new(b as u8) {
            Some(c) => term.write_vga_char(c),
            None => {},
        }
        b = b + 1;
    }
    term.insert_linefeed();
    let colors = Color::all();
    let mut i: usize = 0;
    while i < colors.len()
        invariant
            0 <= i <= colors@.len(),
            term.wf(),
        decreases colors@.len() - i,
    {
        term.set_color(colors[i]);
        term.write_vga_char(VgaChar::block());
        term.write_vga_char(VgaChar::block());
        i = i + 1;
    }
    term.set_color(Color::White);
    term.insert_linefeed();
}

} // verus!
