use vstd::prelude::*;

use crate::fat::{read_le32, spec_le32};
use crate::vga::spec_low_byte;

verus! {

/// Capacity of the shell's line buffer, in characters.
pub const SHELL_BUFFER: usize = 256;

/// Length of a command's filename argument: one 8.3 name.
pub const ARG_LEN: usize = 11;

/// What a typed line asks the kernel to do. The shell only decides; the
/// kernel front end performs the action and prints.
#[derive(Clone, Copy, Debug, PartialEq, Eq)]
pub enum Command {
    /// Liveness test; answered with a pong.
    Ping,
    /// List the root directory.
    ListEntries,
    /// List the running tasks.
    ListTasks,
    /// Remove the task with this id.
    RemoveTask(u8),
    /// A task removal without a task id.
    RemoveTaskMissing,
    /// Show a file's contents; carries the 8.3 name argument.
    Cat([u8; ARG_LEN]),
    /// Load a file as a task; carries the 8.3 name argument.
    Run([u8; ARG_LEN]),
    /// Start the first dummy task.
    DummyTaskA,
    /// Start the second dummy task.
    DummyTaskB,
    /// Start the third dummy task.
    DummyTaskC,
    /// A dummy-task request naming no known variant.
    DummyTaskUnknown,
    /// Print the command summary.
    Help,
    /// An empty line; nothing to do.
    Empty,
    /// Anything else.
    Unknown,
}

/// The ghost image of a `Command`, with the argument as a byte sequence.
pub enum CommandV {
    Ping,
    ListEntries,
    ListTasks,
    RemoveTask(u8),
    RemoveTaskMissing,
    Cat(Seq<u8>),
    Run(Seq<u8>),
    DummyTaskA,
    DummyTaskB,
    DummyTaskC,
    DummyTaskUnknown,
    Help,
    Empty,
    Unknown,
}

impl View for Command {
    type V = CommandV;

    open spec fn view(&self) -> CommandV {
        match *self {
            Command::Ping => CommandV::Ping,
            Command::ListEntries => CommandV::ListEntries,
            Command::ListTasks => CommandV::ListTasks,
            Command::RemoveTask(id) => CommandV::RemoveTask(id),
            Command::RemoveTaskMissing => CommandV::RemoveTaskMissing,
            Command::Cat(a) => CommandV::Cat(a@),
            Command::Run(a) => CommandV::Run(a@),
            Command::DummyTaskA => CommandV::DummyTaskA,
            Command::DummyTaskB => CommandV::DummyTaskB,
            Command::DummyTaskC => CommandV::DummyTaskC,
            Command::DummyTaskUnknown => CommandV::DummyTaskUnknown,
            Command::Help => CommandV::Help,
            Command::Empty => CommandV::Empty,
            Command::Unknown => CommandV::Unknown,
        }
    }
}

/// Whether the line starts with the given command word, character by
/// character.
pub open spec fn spec_is_command(buf: Seq<char>, cmd: Seq<char>) -> bool {
    forall|j: int| 0 <= j < cmd.len() ==> buf[j] == cmd[j]
}

/// The 8.3 name argument: the eleven characters after the command word and
/// its space, as bytes.
pub open spec fn spec_arg_bytes(buf: Seq<char>) -> Seq<u8> {
    Seq::new(ARG_LEN as nat, |i: int| spec_low_byte(buf[4 + i]))
}

/// The decision the shell takes for a full line buffer, trying the command
/// words in their fixed order and falling through to the empty and unknown
/// cases.
pub open spec fn spec_interpret(buf: Seq<char>) -> CommandV {
    if spec_is_command(buf, seq!['p', 'i', 'n', 'g']) {
        CommandV::Ping
    } else if spec_is_command(buf, seq!['l', 's']) {
        CommandV::ListEntries
    } else if spec_is_command(buf, seq!['p', 's']) {
        CommandV::ListTasks
    } else if spec_is_command(buf, seq!['r', 't']) {
        if spec_low_byte(buf[3]) < 0x30 {
            CommandV::RemoveTaskMissing
        } else {
            CommandV::RemoveTask((spec_low_byte(buf[3]) - 0x30) as u8)
        }
    } else if spec_is_command(buf, seq!['c', 'a', 't']) {
        CommandV::Cat(spec_arg_bytes(buf))
    } else if spec_is_command(buf, seq!['r', 'u', 'n']) {
        CommandV::Run(spec_arg_bytes(buf))
    } else if spec_is_command(buf, seq!['t', 'e', 's', 't']) {
        if buf[5] == 'a' {
            CommandV::DummyTaskA
        } else if buf[5] == 'b' {
            CommandV::DummyTaskB
        } else if buf[5] == 'c' {
            CommandV::DummyTaskC
        } else {
            CommandV::DummyTaskUnknown
        }
    } else if spec_is_command(buf, seq!['h', 'e', 'l', 'p']) {
        CommandV::Help
    } else if buf[0] == '\0' {
        CommandV::Empty
    } else {
        CommandV::Unknown
    }
}

/// The line shell's editing state: the line being typed, the scratch for a
/// filename argument, and the cursor one past the last typed character.
pub struct Shell {
    pub buffer: [char; SHELL_BUFFER],
    pub arg: [char; ARG_LEN],
    pub cursor: usize,
}

impl Shell {
    /// A shell with an empty line.
    pub fn new() -> (s: Shell)
        ensures
            s.cursor == 0,
            forall|i: int| 0 <= i < SHELL_BUFFER ==> s.buffer@[i] == '\0',
            forall|i: int| 0 <= i < ARG_LEN ==> s.arg@[i] == '\0',
    {
        Shell { buffer: ['\0'; SHELL_BUFFER], arg: ['\0'; ARG_LEN], cursor: 0 }
    }

    /// Empties the line and homes the cursor, ready for the next command.
    /// The argument scratch is left as it was.
    pub fn init(&mut self)
        ensures
            final(self).cursor == 0,
            forall|i: int| 0 <= i < SHELL_BUFFER ==> final(self).buffer@[i] == '\0',
            final(self).arg == old(self).arg,
    {
        self.buffer = ['\0'; SHELL_BUFFER];
        self.cursor = 0;
    }

    /// Appends one typed character at the cursor.
    pub fn add(&mut self, c: char)
        requires
            old(self).cursor < SHELL_BUFFER,
        ensures
            final(self).buffer@ == old(self).buffer@.update(old(self).cursor as int, c),
            final(self).cursor == old(self).cursor + 1,
            final(self).arg == old(self).arg,
    {
        self.buffer[self.cursor] = c;
        self.cursor = self.cursor + 1;
    }

    /// Steps the cursor back over the last typed character.
    ///
    /// The slot at the old cursor (one past the last character) is nulled;
    /// the character stepped over itself stays in the buffer until it is
    /// overwritten.
    pub fn backspace(&mut self)
        requires
            old(self).cursor < SHELL_BUFFER,
        ensures
            old(self).cursor > 0 ==> {
                &&& final(self).buffer@ == old(self).buffer@.update(
                    old(self).cursor as int,
                    '\0',
                )
                &&& final(self).cursor == old(self).cursor - 1
            },
            old(self).cursor == 0 ==> *final(self) == *old(self),
            final(self).arg == old(self).arg,
    {
        if self.cursor > 0 {
            self.buffer[self.cursor] = '\0';
            self.cursor = self.cursor - 1;
        }
    }

    /// Whether the typed line starts with the given command word.
    pub fn is_command(&self, command: &str) -> (r: bool)
        requires
            command@.len() <= SHELL_BUFFER,
        ensures
            r == spec_is_command(self.buffer@, command@),
    {
        let n = command.unicode_len();
        let mut j: usize = 0;
        while j < n
            invariant
                j <= n,
                n == command@.len() <= SHELL_BUFFER,
                forall|i: int| 0 <= i < j ==> self.buffer@[i] == command@[i],
            decreases n - j,
        {
            let c = command.get_char(j);
            if c != self.buffer[j] {
                return false;
            }
            j = j + 1;
        }
        true
    }

    /// Copies the 8.3 name argument out of the line as bytes.
    fn arg_bytes(&self) -> (r: [u8; ARG_LEN])
        ensures
            r@ == spec_arg_bytes(self.buffer@),
    {
        let mut r: [u8; ARG_LEN] = [0; ARG_LEN];
        let mut i: usize = 0;
        while i < ARG_LEN
            invariant
                i <= ARG_LEN,
                r@.len() == ARG_LEN as int,
                forall|j: int| 0 <= j < i ==> r@[j] == spec_low_byte(self.buffer@[4 + j]),
            decreases ARG_LEN - i,
        {
            let ci: char = self.buffer[4 + i];
            r[i] = #[verifier::truncate] (ci as u8);
            i = i + 1;
        }
        proof {
            assert(r@ =~= spec_arg_bytes(self.buffer@));
        }
        r
    }

    /// Decides what the typed line asks for, without performing it: the
    /// kernel front end matches on the result, runs the action, and prints.
    pub fn interpret(&self) -> (c: Command)
        ensures
            c@ == spec_interpret(self.buffer@),
    {
        proof {
            reveal_strlit("ping");
            reveal_strlit("ls");
            reveal_strlit("ps");
            reveal_strlit("rt");
            reveal_strlit("cat");
            reveal_strlit("run");
            reveal_strlit("test");
            reveal_strlit("help");
            assert("ping"@ =~= seq!['p', 'i', 'n', 'g']);
            assert("ls"@ =~= seq!['l', 's']);
            assert("ps"@ =~= seq!['p', 's']);
            assert("rt"@ =~= seq!['r', 't']);
            assert("cat"@ =~= seq!['c', 'a', 't']);
            assert("run"@ =~= seq!['r', 'u', 'n']);
            assert("test"@ =~= seq!['t', 'e', 's', 't']);
            assert("help"@ =~= seq!['h', 'e', 'l', 'p']);
        }
        if self.is_command("ping") {
            Command::Ping
        } else if self.is_command("ls") {
            Command::ListEntries
        } else if self.is_command("ps") {
            Command::ListTasks
        } else if self.is_command("rt") {
            let c3: char = self.buffer[3];
            let lb: u8 = #[verifier::truncate] (c3 as u8);
            if lb < 0x30 {
                Command::RemoveTaskMissing
            } else {
                Command::RemoveTask(lb - 0x30)
            }
        } else if self.is_command("cat") {
            Command::Cat(self.arg_bytes())
        } else if self.is_command("run") {
            Command::Run(self.arg_bytes())
        } else if self.is_command("test") {
            let a = self.buffer[5];
            if a == 'a' {
                Command::DummyTaskA
            } else if a == 'b' {
                Command::DummyTaskB
            } else if a == 'c' {
                Command::DummyTaskC
            } else {
                Command::DummyTaskUnknown
            }
        } else if self.is_command("help") {
            Command::Help
        } else if self.buffer[0] == '\0' {
            Command::Empty
        } else {
            Command::Unknown
        }
    }
}

/// Whether loaded content begins with the expected 32-bit little-endian
/// signature; the loader checks this before treating content as executable.
pub fn has_signature(data: &Vec<u8>, expected: u32) -> (r: bool)
    ensures
        r == (data@.len() >= 4 && spec_le32(data@, 0) == expected as int),
{
    if data.len() < 4 {
        false
    } else {
        read_le32(data, 0) == expected
    }
}

} // verus!
