//! The interactive shell: one interface, one toolbox, and the dispatch of a
//! parsed line to a command.
//!
//! The shell reads a line, parses it, looks the program up in the toolbox
//! and runs the command. A command gets the shell itself, so it may print
//! through the interface, replace the interface, and loop over the new one
//! before it returns. No error of a command ends the shell: it is shown and
//! the next line is read. Only the end of the input ends it.
//!
//! The shell owns its toolbox. The line editor is told the registered names
//! anew at every prompt, so completion follows the registry as it is, not as
//! it was when the shell started, and no lock is held while a line is read.
//!
//! The loop itself is the caller's: it calls [`Shell::turn`] until the
//! answer is `false`. A command that has replaced the interface may run such
//! a loop of its own before it returns; the loops nest as deep as the stack
//! allows, each on the interface that is installed when it reads.
//!
//! A command that is sent to the background runs through
//! [`Command::daemonized`]. On a POSIX system the embedding program detaches
//! it into a process of its own, and what it does to its copy of the shell
//! stays there. Elsewhere the embedding program can only run the command in
//! place, in a shell of its own with the same commands, and return when it
//! is done, which is not what the user asked for; what the command
//! registered is then handed back to the shell that was asked.

use vstd::prelude::*;
use vstd::string::StrSliceExecFns;
use vstd::utf8::encode_utf8;
use crate::ctrl::{Interface, PromptError};
use crate::errors::{rendering, Error, ErrorKind};
use crate::parser::{parse_line, parsed, InputCmd, InputCmdView};
use crate::toolbox::Toolbox;

verus! {

/// A command that the shell can run.
///
/// The relations [`Command::ran`] and [`Command::detached`] are the
/// command's own word on what it does. A command that gives them no body
/// promises nothing, and nothing is believed of it.
pub trait Command: Sized + Clone {
    /// Whether the command, run in the shell `before` with the arguments
    /// `args`, may leave the shell as `after` and answer `r`.
    open spec fn ran(
        &self,
        before: Shell<Self>,
        args: Seq<Seq<char>>,
        after: Shell<Self>,
        r: Result<(), Error>,
    ) -> bool {
        true
    }

    /// Whether the command, detached from the shell `before` with the
    /// arguments `args`, may leave that shell as `after` and answer `r`.
    open spec fn detached(
        &self,
        before: Shell<Self>,
        args: Seq<Seq<char>>,
        after: Shell<Self>,
        r: Result<(), Error>,
    ) -> bool {
        true
    }

    /// Runs the command in the shell. The first argument is the name under
    /// which the command was called.
    fn run(&self, sh: &mut Shell<Self>, args: Vec<String>) -> (r: Result<(), Error>)
        ensures
            self.ran(*old(sh), crate::text::views(args@), *final(sh), r),
    ;

    /// Runs the command detached from the shell, so that it outlives it
    /// where the platform allows that. Where it does not, the command runs
    /// in this process, and what it registers is handed back to the shell.
    fn daemonized(&self, sh: &mut Shell<Self>, args: Vec<String>) -> (r: Result<(), Error>)
        ensures
            self.detached(*old(sh), crate::text::views(args@), *final(sh), r),
    ;
}

/// What the shell does with a parsed line.
pub enum Dispatch<C> {
    /// Run the command in the shell.
    Run(C),
    /// Run the command detached from the shell.
    Daemonize(C),
    /// No command of that name is registered.
    Unknown,
}

/// The struct that keeps track of the user interface.
#[verifier::reject_recursive_types(C)]
pub struct Shell<C> {
    ui: Interface,
    toolbox: Toolbox<C>,
}

/// The prompt of the shell.
pub open spec fn prompt_text() -> Seq<char> {
    " [%]> "@
}

/// What the shell says of a program that is not registered.
pub open spec fn unknown_command_text() -> Seq<char> {
    "\u{1b}[1;31merror:\u{1b}[0m unknown command"@
}

/// What the shell says when it is asked to downgrade an interface that is
/// no line editor.
pub open spec fn already_downgraded_text() -> Seq<char> {
    "[-] interface is already downgraded"@
}

/// The bytes of a line of text: the text in UTF-8 and a line feed.
pub open spec fn line_bytes(text: Seq<char>) -> Seq<u8> {
    encode_utf8(text).push(10u8)
}

/// The error for a program that is not registered: a usage error.
pub fn unknown_command() -> (e: Error)
    ensures
        e.kind == ErrorKind::Args,
        e.message@ == unknown_command_text(),
{
    Error::args("\u{1b}[1;31merror:\u{1b}[0m unknown command".to_owned())
}

/// Whether `r` is what the answer `line` of a prompt means for the loop:
/// a line that was read is parsed, to a command to run or to nothing, and
/// the failure to read one is the end.
pub open spec fn interpreted(
    line: Result<String, PromptError>,
    r: Result<Option<InputCmd>, ()>,
) -> bool {
    match line {
        Ok(text) => match r {
            Ok(Some(cmd)) => parsed(text@) == Some(cmd@),
            Ok(None) => parsed(text@) is None,
            Err(_) => false,
        },
        Err(_) => r is Err,
    }
}

/// What a line that was read, or the failure to read one, means for the
/// loop: a command to run, nothing to do, or the end.
pub fn interpret(line: &Result<String, PromptError>) -> (r: Result<Option<InputCmd>, ()>)
    ensures
        interpreted(*line, r),
{
    match line {
        Ok(text) => Ok(parse_line(text.as_str())),
        Err(_) => Err(()),
    }
}

impl<C> Shell<C> {
    /// The interface that the shell uses now.
    pub closed spec fn interface(self) -> Interface {
        self.ui
    }

    /// The registered commands by name.
    pub closed spec fn commands(self) -> Map<Seq<char>, C> {
        self.toolbox@
    }

    /// Whether the shell, as it is, may get `line` for an answer when it
    /// prompts: its interface is shown the prompt of the shell, and the line
    /// editor completes to the names that are registered, each once.
    pub open spec fn prompted(&self, line: Result<String, PromptError>) -> bool {
        exists|names: Seq<Seq<char>>|
            names.no_duplicates() && names.to_set() == self.commands().dom()
                && #[trigger] self.interface().prompts(prompt_text(), names, line)
    }

    /// Whether the interface is the dummy transport and `after` is this
    /// shell once the dummy has collected `bytes`: the commands are the same,
    /// and the dummy holds `bytes` behind what it held.
    pub open spec fn collected(self, bytes: Seq<u8>, after: Shell<C>) -> bool {
        &&& after.commands() == self.commands()
        &&& self.interface().collected(bytes, after.interface())
    }

    /// Whether the shell may become `after` and answer `r` when all of
    /// `bytes` is written through it: the commands stay, and the interface
    /// changes and answers as [`Interface::wrote_all`] says.
    pub open spec fn wrote_all(self, bytes: Seq<u8>, after: Shell<C>, r: Result<(), Error>) -> bool {
        &&& after.commands() == self.commands()
        &&& self.interface().wrote_all(bytes, after.interface(), r)
    }

    /// Whether the shell may become `after` and answer `r` when the line
    /// `text` is printed through it.
    ///
    /// The bytes of the line are written, all of them; if that fails, the
    /// failure is the answer and nothing more is done. Else the interface is
    /// flushed, and what the flush answers is the answer. The commands and the
    /// transport stay. The dummy transport collects the line and succeeds.
    pub open spec fn printed(self, text: Seq<char>, after: Shell<C>, r: Result<(), Error>) -> bool {
        &&& after.commands() == self.commands()
        &&& after.interface().transport() == self.interface().transport()
        &&& self.interface() is Dummy ==> r is Ok && self.collected(line_bytes(text), after)
        &&& exists|written: Result<(), Error>, mid: Shell<C>|
            #[trigger] self.wrote_all(line_bytes(text), mid, written) && match written {
                Err(e) => r == Err::<(), Error>(e) && after == mid,
                Ok(()) => mid.interface().flushes(r) && mid.kept(after),
            }
    }

    /// Whether the shell may become `after` when it shows the line `text`
    /// to the user, whether or not that succeeds.
    pub open spec fn shown(self, text: Seq<char>, after: Shell<C>) -> bool {
        exists|r: Result<(), Error>| #[trigger] self.printed(text, after, r)
    }

    /// Whether the shell may become `after` when it reports the outcome
    /// `result` of a command: success is not reported and changes nothing; an
    /// error is shown as one line, its usage if the arguments were wrong,
    /// `error: ` and the details otherwise.
    pub open spec fn reported(self, result: Result<(), Error>, after: Shell<C>) -> bool {
        match result {
            Ok(()) => after == self,
            Err(e) => self.shown(rendering(e.kind, e.message@), after),
        }
    }

    /// Whether the shell may become `after` once it has got the answer
    /// `line` to its prompt: a line that was read is noted in the history,
    /// and without a line nothing changes.
    pub open spec fn got(self, line: Result<String, PromptError>, after: Shell<C>) -> bool {
        match line {
            Ok(text) => self.noted(text@, after),
            Err(_) => after == self,
        }
    }

    /// Whether the shell may become `after` when it notes the line `line`
    /// in the history: the line editor is told the line; any other interface
    /// stays as it is. The commands stay.
    pub open spec fn noted(self, line: Seq<char>, after: Shell<C>) -> bool {
        &&& after.commands() == self.commands()
        &&& self.interface().remembered(line, after.interface())
        &&& self.interface().kept(after.interface())
    }

    /// The shell after something was done through its interface that writes
    /// nothing.
    pub open spec fn kept(self, after: Shell<C>) -> bool {
        &&& after.commands() == self.commands()
        &&& self.interface().kept(after.interface())
    }

    /// Initializes a shell with the commands of `toolbox` on the interface
    /// `ui`.
    pub fn new(toolbox: Toolbox<C>, ui: Interface) -> (sh: Shell<C>)
        ensures
            sh.interface() == ui,
            sh.commands() == toolbox@,
    {
        Shell { ui, toolbox }
    }

    /// The interface that the shell uses now.
    pub fn ui(&self) -> (ui: &Interface)
        ensures
            *ui == self.interface(),
    {
        &self.ui
    }

    /// The toolbox of the shell.
    pub fn toolbox(&self) -> (toolbox: &Toolbox<C>)
        ensures
            toolbox@ == self.commands(),
    {
        &self.toolbox
    }

    /// Gives up the shell for its toolbox.
    pub fn into_toolbox(self) -> (toolbox: Toolbox<C>)
        ensures
            toolbox@ == self.commands(),
    {
        self.toolbox
    }

    /// Replaces the toolbox. The interface stays.
    pub fn replace_toolbox(&mut self, toolbox: Toolbox<C>)
        ensures
            final(self).commands() == toolbox@,
            final(self).interface() == old(self).interface(),
    {
        self.toolbox = toolbox;
    }

    /// The names of the registered commands, each once.
    pub fn list_commands(&self) -> (names: Vec<String>)
        ensures
            crate::text::views(names@).no_duplicates(),
            crate::text::views(names@).to_set() == self.commands().dom(),
            names.len() == self.commands().dom().len(),
    {
        self.toolbox.keys()
    }

    /// Replaces the interface. Whatever is read or written from now on goes
    /// through `ui`; the interface that was in use is dropped, with what it
    /// had buffered.
    pub fn hotswap(&mut self, ui: Interface)
        ensures
            final(self).interface() == ui,
            final(self).commands() == old(self).commands(),
    {
        self.ui = ui;
    }

    /// The file descriptors for a child process that is to talk to the
    /// interface, where it has any.
    pub fn pipe(&self) -> (r: Option<(i32, i32, i32)>)
        ensures
            self.interface().pipes(r),
    {
        self.ui.pipe()
    }

    /// Insert a command into the toolbox. A command that was registered
    /// under the same name is replaced.
    pub fn insert(&mut self, name: &str, command: C)
        ensures
            final(self).commands() == old(self).commands().insert(name@, command),
            final(self).interface() == old(self).interface(),
    {
        self.toolbox.insert(name, command);
    }

    /// Reads some bytes from the interface.
    pub fn read(&mut self, buf: &mut [u8]) -> (r: Result<usize, Error>)
        ensures
            old(self).interface().reads(old(buf)@, final(buf)@, r),
            old(self).kept(*final(self)),
            old(self).interface() is Dummy ==> r is Err,
    {
        self.ui.read(buf)
    }

    /// Writes some bytes of `buf` to the interface and says how many.
    pub fn write(&mut self, buf: &[u8]) -> (r: Result<usize, Error>)
        ensures
            old(self).interface().writes(buf@, r),
            final(self).commands() == old(self).commands(),
            final(self).interface().transport() == old(self).interface().transport(),
            old(self).interface() is Dummy ==> r == Ok::<usize, Error>(buf.len()) && old(
                self,
            ).collected(buf@, *final(self)),
    {
        self.ui.write(buf)
    }

    /// Sends on what was written to the interface.
    pub fn flush(&mut self) -> (r: Result<(), Error>)
        ensures
            old(self).interface().flushes(r),
            old(self).kept(*final(self)),
            old(self).interface() is Dummy ==> r is Ok,
    {
        self.ui.flush()
    }

    /// Writes all of `buf` to the interface, in as many pieces as it takes.
    pub fn write_all(&mut self, buf: &[u8]) -> (r: Result<(), Error>)
        ensures
            old(self).wrote_all(buf@, *final(self), r),
    {
        self.ui.write_all(buf)
    }

    /// Prints a line of text through the interface and sends it on.
    pub fn println(&mut self, text: &str) -> (r: Result<(), Error>)
        ensures
            old(self).printed(text@, *final(self), r),
    {
        let mut bytes = text.as_bytes_vec();
        bytes.push(10u8);
        let written = self.ui.write_all(bytes.as_slice());
        let ghost mid = *self;
        proof {
            assert(old(self).wrote_all(line_bytes(text@), mid, written));
        }
        match written {
            Ok(()) => self.ui.flush(),
            Err(e) => Err(e),
        }
    }

    /// Replaces the line editor by `plain`. If the interface is no line
    /// editor, it stays and says so.
    pub fn downgrade(&mut self, plain: Interface)
        ensures
            final(self).commands() == old(self).commands(),
            if old(self).interface() is Fancy {
                final(self).interface() == plain
            } else {
                old(self).shown(already_downgraded_text(), *final(self))
            },
    {
        match self.ui {
            Interface::Fancy(_) => {
                self.ui = plain;
            },
            _ => {
                let r = self.println("[-] interface is already downgraded");
                proof {
                    assert(old(self).printed(already_downgraded_text(), *self, r));
                }
            },
        }
    }

    /// Shows the outcome of a command: nothing if it succeeded, its usage
    /// if the arguments were wrong, and `error: ` with the details for any
    /// other error. A failure to show it is dropped.
    pub fn report(&mut self, result: &Result<(), Error>)
        ensures
            old(self).reported(*result, *final(self)),
    {
        match result {
            Ok(()) => {},
            Err(e) => {
                let text = e.render();
                let r = self.println(text.as_str());
                proof {
                    assert(old(self).printed(rendering(e.kind, e.message@), *self, r));
                }
            },
        }
    }

    /// Shows the prompt and reads a line. The line editor completes to the
    /// names that are registered now.
    pub fn prompt(&mut self) -> (r: Result<String, PromptError>)
        ensures
            old(self).prompted(r),
            old(self).kept(*final(self)),
            old(self).interface() is Dummy ==> r is Err,
    {
        let names = self.toolbox.keys();
        let r = self.ui.readline(" [%]> ", &names);
        proof {
            assert(old(self).interface().prompts(prompt_text(), crate::text::views(names@), r));
        }
        r
    }

    /// Reads a line and parses it. An error means that the input has ended
    /// or failed. A line that was read is noted in the history.
    pub fn get_line(&mut self) -> (r: Result<Option<InputCmd>, ()>)
        ensures
            exists|line: Result<String, PromptError>, read: Shell<C>|
                #[trigger] old(self).prompted(line) && old(self).kept(read) && interpreted(line, r)
                    && #[trigger] read.got(line, *final(self)),
            final(self).commands() == old(self).commands(),
            final(self).interface().transport() == old(self).interface().transport(),
            old(self).interface() is Dummy ==> r is Err && old(self).kept(*final(self)),
    {
        let line = self.prompt();
        let ghost read = *self;
        match &line {
            Ok(text) => {
                self.ui.add_history_entry(text.as_str());
            },
            Err(_) => {},
        }
        proof {
            assert(old(self).prompted(line) && old(self).kept(read) && read.got(line, *self));
        }
        interpret(&line)
    }
}

impl<C: Clone> Shell<C> {
    /// A shell of its own on the interface `ui`, with the same commands. A
    /// detached command runs in such a shell.
    pub fn daemon_clone(&self, ui: Interface) -> (sh: Shell<C>)
        ensures
            sh.interface() == ui,
            sh.commands().dom() == self.commands().dom(),
            forall|k: Seq<char>|
                self.commands().contains_key(k) ==> cloned(
                    self.commands()[k],
                    #[trigger] sh.commands()[k],
                ),
    {
        Shell { ui, toolbox: self.toolbox.duplicate() }
    }
}

impl<C: Command> Shell<C> {
    /// Looks the program of a parsed line up: the command to run in the
    /// shell or detached from it, or nothing if no such command is
    /// registered.
    pub fn resolve(&self, cmd: &InputCmd) -> (d: Dispatch<C>)
        ensures
            match d {
                Dispatch::Run(c) => self.commands().contains_key(cmd.prog@) && !cmd.bg && cloned(
                    self.commands()[cmd.prog@],
                    c,
                ),
                Dispatch::Daemonize(c) => self.commands().contains_key(cmd.prog@) && cmd.bg
                    && cloned(self.commands()[cmd.prog@], c),
                Dispatch::Unknown => !self.commands().contains_key(cmd.prog@),
            },
    {
        match self.toolbox.get(cmd.prog.as_str()) {
            Some(found) => {
                let c = found.clone();
                if cmd.bg {
                    Dispatch::Daemonize(c)
                } else {
                    Dispatch::Run(c)
                }
            },
            None => Dispatch::Unknown,
        }
    }

    /// Whether the shell may become `mid` and the command `c` answer `r`
    /// when `c` is handed the parsed line `cmd`: in the background it is
    /// detached from this shell; else it is run in this shell. Either way it
    /// gets all tokens of the line for its arguments.
    pub open spec fn dispatched(
        self,
        c: C,
        cmd: InputCmdView,
        mid: Shell<C>,
        r: Result<(), Error>,
    ) -> bool {
        if cmd.bg {
            c.detached(self, cmd.args, mid, r)
        } else {
            c.ran(self, cmd.args, mid, r)
        }
    }

    /// Whether the shell may become `after` when it processes the parsed
    /// line `cmd`.
    ///
    /// A program that is not registered is a usage error: no command is
    /// run, and the shell shows the line that says that the command is
    /// unknown. Else a clone of the registered command is handed the line,
    /// and its outcome is reported from the shell as the command left it.
    pub open spec fn processed(self, cmd: InputCmdView, after: Shell<C>) -> bool {
        if !self.commands().contains_key(cmd.prog) {
            self.shown(unknown_command_text(), after)
        } else {
            exists|c: C, mid: Shell<C>, r: Result<(), Error>|
                cloned(self.commands()[cmd.prog], c) && #[trigger] self.dispatched(c, cmd, mid, r)
                    && mid.reported(r, after)
        }
    }

    /// Whether the shell may become `after`, and the loop go on or not as
    /// `more` says, once the shell has reacted to the answer `line` of a
    /// prompt.
    ///
    /// The loop goes on exactly if a line was read. Without a line nothing
    /// changes. A line that was read is noted in the history; if it parses to
    /// nothing, nothing more is done; else the parsed line is processed.
    pub open spec fn reacted(
        self,
        line: Result<String, PromptError>,
        after: Shell<C>,
        more: bool,
    ) -> bool {
        match line {
            Err(_) => !more && after == self,
            Ok(text) => more && exists|noted: Shell<C>|
                #[trigger] self.noted(text@, noted) && match parsed(text@) {
                    None => after == noted,
                    Some(cmd) => noted.processed(cmd, after),
                },
        }
    }

    /// Runs a parsed line and shows the error if there is one.
    ///
    /// A program that is not registered is a usage error: the shell prints
    /// that the command is unknown and is otherwise unchanged.
    pub fn process(&mut self, cmd: InputCmd)
        ensures
            old(self).processed(cmd@, *final(self)),
    {
        let ghost line = cmd@;
        match self.resolve(&cmd) {
            Dispatch::Daemonize(func) => {
                let result = func.daemonized(self, cmd.args);
                let ghost mid = *self;
                self.report(&result);
                proof {
                    assert(old(self).dispatched(func, line, mid, result));
                }
            },
            Dispatch::Run(func) => {
                let result = func.run(self, cmd.args);
                let ghost mid = *self;
                self.report(&result);
                proof {
                    assert(old(self).dispatched(func, line, mid, result));
                }
            },
            Dispatch::Unknown => {
                let result = Err(unknown_command());
                self.report(&result);
            },
        }
    }

    /// Parses a line and runs it, without entering the loop. A comment or a
    /// line without a token leaves the shell as it is; any other line is
    /// processed.
    pub fn exec_once(&mut self, line: &str)
        ensures
            match parsed(line@) {
                None => *final(self) == *old(self),
                Some(cmd) => old(self).processed(cmd, *final(self)),
            },
    {
        if let Some(cmd) = parse_line(line) {
            self.process(cmd);
        }
    }

    /// What the loop does once a line was read, or could not be read: it
    /// remembers the line in the history, parses it and runs it. The answer
    /// is whether the loop goes on. It ends when no line could be read, and
    /// for no other reason: not for a comment, not for an unknown command,
    /// not for a command that fails.
    pub fn react(&mut self, line: &Result<String, PromptError>) -> (more: bool)
        ensures
            old(self).reacted(*line, *final(self), more),
    {
        match line {
            Ok(text) => {
                self.ui.add_history_entry(text.as_str());
                let ghost noted = *self;
                proof {
                    assert(old(self).noted(text@, noted));
                }
                if let Some(cmd) = parse_line(text.as_str()) {
                    self.process(cmd);
                }
                true
            },
            Err(_) => false,
        }
    }

    /// One round of the loop: shows the prompt, reads a line and runs it.
    /// The answer is whether the loop goes on.
    pub fn turn(&mut self) -> (more: bool)
        ensures
            exists|line: Result<String, PromptError>, read: Shell<C>|
                #[trigger] old(self).prompted(line) && old(self).kept(read) && #[trigger] read.reacted(
                    line,
                    *final(self),
                    more,
                ),
            old(self).interface() is Dummy ==> !more && old(self).kept(*final(self)),
    {
        let line = self.prompt();
        let ghost read = *self;
        let more = self.react(&line);
        proof {
            assert(old(self).prompted(line) && old(self).kept(read) && read.reacted(
                line,
                *self,
                more,
            ));
        }
        more
    }
}

/// A line that names a program that is not registered does not end the
/// loop: the shell shows the line that says that the command is unknown,
/// keeps its commands and its transport, and the loop goes on.
pub proof fn lemma_unknown_command_goes_on<C: Command>(
    before: Shell<C>,
    text: String,
    after: Shell<C>,
    more: bool,
)
    requires
        before.reacted(Ok::<String, PromptError>(text), after, more),
        parsed(text@) matches Some(cmd) && !before.commands().contains_key(cmd.prog),
    ensures
        more,
        after.commands() == before.commands(),
        after.interface().transport() == before.interface().transport(),
        exists|noted: Shell<C>|
            #[trigger] before.noted(text@, noted) && noted.shown(unknown_command_text(), after),
{
    let noted = choose|noted: Shell<C>|
        #[trigger] before.noted(text@, noted) && match parsed(text@) {
            None => after == noted,
            Some(cmd) => noted.processed(cmd, after),
        };
    assert(before.noted(text@, noted));
    assert(noted.shown(unknown_command_text(), after));
    let r = choose|r: Result<(), Error>| #[trigger] noted.printed(unknown_command_text(), after, r);
    assert(noted.printed(unknown_command_text(), after, r));
}

/// A line that names a registered program in the foreground runs a clone of
/// that command in this very shell, with all tokens of the line for its
/// arguments, and reports its outcome from the shell as the command left it.
pub proof fn lemma_registered_command_runs<C: Command>(
    before: Shell<C>,
    cmd: InputCmdView,
    after: Shell<C>,
)
    requires
        before.processed(cmd, after),
        before.commands().contains_key(cmd.prog),
        !cmd.bg,
    ensures
        exists|c: C, mid: Shell<C>, r: Result<(), Error>|
            cloned(before.commands()[cmd.prog], c) && #[trigger] c.ran(before, cmd.args, mid, r)
                && mid.reported(r, after),
{
    let (c, mid, r) = choose|c: C, mid: Shell<C>, r: Result<(), Error>|
        cloned(before.commands()[cmd.prog], c) && #[trigger] before.dispatched(c, cmd, mid, r)
            && mid.reported(r, after);
    assert(before.dispatched(c, cmd, mid, r));
    assert(c.ran(before, cmd.args, mid, r));
}

/// After a hot swap, what is written goes to the new interface: a dummy
/// interface that was swapped in holds what it held and then what was
/// written, whatever the interface before it was or held.
pub proof fn lemma_hotswap_then_write<C>(
    before: Shell<C>,
    swapped: Shell<C>,
    after: Shell<C>,
    ui: Interface,
    buf: Seq<u8>,
)
    requires
        swapped.interface() == ui,
        swapped.commands() == before.commands(),
        swapped.collected(buf, after),
        ui is Dummy,
    ensures
        after.interface() is Dummy,
        after.interface().sink() == ui.sink() + buf,
        after.commands() == before.commands(),
{
}

} // verus!
