use boxxy::ctrl::{Interface, PromptError, Stream, Transport};
use boxxy::errors::{Error, ErrorKind};
use boxxy::parser::InputCmd;
use boxxy::shell::{interpret, unknown_command, Command, Dispatch, Shell};
use boxxy::toolbox::Toolbox;
use std::cell::RefCell;
use std::collections::VecDeque;
use std::rc::Rc;

const UNKNOWN: &[u8] = b"\x1b[1;31merror:\x1b[0m unknown command\n";

/// A stream that reads scripted lines and records what is written.
struct Script {
    lines: VecDeque<String>,
    written: Rc<RefCell<Vec<u8>>>,
}

impl Script {
    fn new(lines: &[&str]) -> (Script, Rc<RefCell<Vec<u8>>>) {
        let written = Rc::new(RefCell::new(Vec::new()));
        let script = Script {
            lines: lines.iter().map(|x| x.to_string()).collect(),
            written: written.clone(),
        };
        (script, written)
    }
}

impl Stream for Script {
    fn read(&mut self, _buf: &mut [u8]) -> Result<usize, Error> {
        Ok(0)
    }

    fn write(&mut self, buf: &[u8]) -> Result<usize, Error> {
        // takes at most three bytes at a time
        let n = buf.len().min(3);
        self.written.borrow_mut().extend_from_slice(&buf[..n]);
        Ok(n)
    }

    fn flush(&mut self) -> Result<(), Error> {
        Ok(())
    }

    fn read_line(&mut self, buf: &mut String) -> Result<usize, Error> {
        match self.lines.pop_front() {
            Some(line) => {
                buf.push_str(&line);
                Ok(line.len())
            }
            None => Ok(0),
        }
    }

    fn raw_fds(&self) -> Option<(i32, i32)> {
        Some((3, 4))
    }
}

#[derive(Clone)]
enum Cmd {
    Say(&'static str),
    Fail,
    Usage,
    Swap,
    Register,
}

impl Command for Cmd {
    fn run(&self, sh: &mut Shell<Cmd>, args: Vec<String>) -> Result<(), Error> {
        match self {
            Cmd::Say(text) => sh.println(&format!("{} {}", text, args.len())),
            Cmd::Fail => Err(Error::io("disk on fire")),
            Cmd::Usage => Err(Error::args("usage: usage <x>".to_string())),
            Cmd::Swap => {
                sh.hotswap(Interface::dummy());
                sh.println("swapped")
            }
            Cmd::Register => {
                sh.insert("late", Cmd::Say("late"));
                Ok(())
            }
        }
    }

    fn daemonized(&self, sh: &mut Shell<Cmd>, args: Vec<String>) -> Result<(), Error> {
        let mut detached = sh.daemon_clone(Interface::dummy());
        self.run(&mut detached, args)?;
        sh.replace_toolbox(detached.into_toolbox());
        Err(Error::other("ran in place"))
    }
}

fn toolbox() -> Toolbox<Cmd> {
    Toolbox::empty().with(vec![
        ("say".to_string(), Cmd::Say("said")),
        ("fail".to_string(), Cmd::Fail),
        ("usage".to_string(), Cmd::Usage),
        ("swap".to_string(), Cmd::Swap),
        ("register".to_string(), Cmd::Register),
    ])
}

fn dummy_shell() -> Shell<Cmd> {
    Shell::new(toolbox(), Interface::dummy())
}

#[test]
fn unknown_command_is_a_usage_error() {
    let e = unknown_command();
    assert_eq!(e.kind, ErrorKind::Args);
    assert!(e.is_usage());
    assert_eq!(e.render().as_bytes(), &UNKNOWN[..UNKNOWN.len() - 1]);
}

#[test]
fn unknown_program_prints_and_goes_on() {
    let mut sh = dummy_shell();
    sh.exec_once("nope 1 2");
    assert_eq!(sh.ui().written(), UNKNOWN);
    sh.exec_once("say");
    let mut expected = UNKNOWN.to_vec();
    expected.extend_from_slice(b"said 1\n");
    assert_eq!(sh.ui().written(), expected);
    assert_eq!(sh.list_commands().len(), 5);
}

#[test]
fn loop_goes_on_after_any_line_that_was_read() {
    let mut sh = dummy_shell();
    assert!(sh.react(&Ok("nope".to_string())));
    assert!(sh.react(&Ok("fail".to_string())));
    assert!(sh.react(&Ok("usage".to_string())));
    assert!(sh.react(&Ok("# comment".to_string())));
    assert!(sh.react(&Ok("".to_string())));
    assert!(!sh.react(&Err(PromptError::Eof)));
    assert!(!sh.react(&Err(PromptError::Io(Error::io("gone")))));
    assert!(!sh.react(&Err(PromptError::Other("interrupted".to_string()))));
    let mut expected = UNKNOWN.to_vec();
    expected.extend_from_slice(b"error: disk on fire\nusage: usage <x>\n");
    assert_eq!(sh.ui().written(), expected);
}

#[test]
fn errors_are_rendered_by_kind() {
    assert_eq!(Error::args("usage: x".to_string()).render(), "usage: x");
    assert_eq!(Error::io("broken pipe").render(), "error: broken pipe");
    assert_eq!(Error::other("what").render(), "error: what");
    assert_eq!(
        Error::new(ErrorKind::Errno(13), "Permission denied".to_string()).render(),
        "error: Permission denied"
    );
    assert_eq!(Error::new(ErrorKind::Protocol, "bad record".to_string()).render(), "error: bad record");
}

#[test]
fn report_prints_errors_only() {
    let mut sh = dummy_shell();
    sh.report(&Ok(()));
    assert_eq!(sh.ui().written(), b"");
    sh.report(&Err(Error::io("x")));
    assert_eq!(sh.ui().written(), b"error: x\n");
}

#[test]
fn comments_and_blank_lines_do_nothing() {
    let mut sh = dummy_shell();
    sh.exec_once("   # say");
    sh.exec_once("");
    sh.exec_once("   ");
    sh.exec_once(" &");
    assert_eq!(sh.ui().written(), b"");
}

#[test]
fn arguments_start_with_the_program() {
    let mut sh = dummy_shell();
    sh.exec_once("say a b\\ c");
    assert_eq!(sh.ui().written(), b"said 3\n");
}

#[test]
fn resolve_finds_the_command() {
    let sh = dummy_shell();
    let cmd = |prog: &str, bg: bool| InputCmd {
        prog: prog.to_string(),
        args: vec![prog.to_string()],
        bg,
    };
    assert!(matches!(sh.resolve(&cmd("say", false)), Dispatch::Run(Cmd::Say("said"))));
    assert!(matches!(sh.resolve(&cmd("say", true)), Dispatch::Daemonize(Cmd::Say("said"))));
    assert!(matches!(sh.resolve(&cmd("Say", false)), Dispatch::Unknown));
    assert!(matches!(sh.resolve(&cmd("nope", true)), Dispatch::Unknown));
}

#[test]
fn background_goes_through_daemonized() {
    let mut sh = dummy_shell();
    sh.exec_once("say x &");
    // the command printed into the detached shell, not into this one
    assert_eq!(sh.ui().written(), b"error: ran in place\n");
}

#[test]
fn background_command_registers_for_the_caller_where_it_runs_in_place() {
    let mut sh = dummy_shell();
    sh.exec_once("register &");
    assert_eq!(sh.list_commands().len(), 6);
    sh.exec_once("late");
    assert_eq!(sh.ui().written(), b"error: ran in place\nlate 1\n");
}

#[test]
fn hotswap_sends_writes_to_the_new_interface() {
    let (script, old_out) = Script::new(&[]);
    let mut sh = Shell::new(toolbox(), Interface::stdio(Box::new(script)));
    sh.println("before").unwrap();
    assert_eq!(&*old_out.borrow(), b"before\n");
    assert_eq!(sh.ui().kind(), Transport::Stdio);

    sh.hotswap(Interface::dummy());
    assert_eq!(sh.ui().kind(), Transport::Dummy);
    assert_eq!(sh.write(b"after").unwrap(), 5);
    sh.flush().unwrap();
    assert_eq!(sh.ui().written(), b"after");
    assert_eq!(&*old_out.borrow(), b"before\n");

    let (script, new_out) = Script::new(&[]);
    sh.hotswap(Interface::Tls(Box::new(script)));
    sh.println("third").unwrap();
    assert_eq!(&*new_out.borrow(), b"third\n");
    assert_eq!(&*old_out.borrow(), b"before\n");
    assert_eq!(sh.list_commands().len(), 5);
}

#[test]
fn hotswap_sends_reads_to_the_new_interface() {
    let (first, first_out) = Script::new(&["say one\n", "say two\n"]);
    let (second, second_out) = Script::new(&["say three\n"]);
    let mut sh = Shell::new(toolbox(), Interface::stdio(Box::new(first)));
    assert!(sh.turn());
    sh.hotswap(Interface::Ipc(Box::new(second)));
    assert!(sh.turn());
    assert!(!sh.turn());
    assert_eq!(&*first_out.borrow(), b" [%]> said 2\n");
    assert_eq!(&*second_out.borrow(), b" [%]> said 2\n [%]> ");
}

#[test]
fn command_may_swap_the_interface() {
    let (script, out) = Script::new(&["swap\n", "say x\n"]);
    let mut sh = Shell::new(toolbox(), Interface::stdio(Box::new(script)));
    assert!(sh.turn());
    assert_eq!(sh.ui().written(), b"swapped\n");
    assert_eq!(&*out.borrow(), b" [%]> ");
    // the dummy interface cannot be read: the loop ends
    assert!(!sh.turn());
    assert_eq!(sh.ui().written(), b"swapped\n");
}

#[test]
fn command_may_register_commands() {
    let mut sh = dummy_shell();
    sh.exec_once("late");
    sh.exec_once("register");
    sh.exec_once("late");
    let mut expected = UNKNOWN.to_vec();
    expected.extend_from_slice(b"late 1\n");
    assert_eq!(sh.ui().written(), expected);
    assert_eq!(sh.list_commands().len(), 6);
}

#[test]
fn loop_runs_lines_until_the_input_ends() {
    let (script, out) = Script::new(&["say a\n", "\n", "# no\n", "nope\n", "fail   \n"]);
    let mut sh = Shell::new(toolbox(), Interface::File(Box::new(script)));
    let mut rounds = 0;
    while sh.turn() {
        rounds += 1;
    }
    assert_eq!(rounds, 5);
    let mut expected = Vec::new();
    expected.extend_from_slice(b" [%]> said 2\n");
    expected.extend_from_slice(b" [%]>  [%]>  [%]> ");
    expected.extend_from_slice(UNKNOWN);
    expected.extend_from_slice(b" [%]> error: disk on fire\n");
    expected.extend_from_slice(b" [%]> ");
    assert_eq!(&*out.borrow(), &expected);
}

#[test]
fn get_line_parses_what_was_read() {
    let (script, _out) = Script::new(&["foo bar &\n", "   \n"]);
    let mut sh = Shell::new(toolbox(), Interface::RWPair(Box::new(script)));
    assert_eq!(
        sh.get_line(),
        Ok(Some(InputCmd {
            prog: "foo".to_string(),
            args: vec!["foo".to_string(), "bar".to_string()],
            bg: true,
        }))
    );
    assert_eq!(sh.get_line(), Ok(None));
    assert_eq!(sh.get_line(), Err(()));
}

#[test]
fn interpret_maps_lines_and_failures() {
    assert_eq!(interpret(&Ok("# x".to_string())), Ok(None));
    assert_eq!(interpret(&Err(PromptError::Eof)), Err(()));
    let cmd = interpret(&Ok("a b".to_string())).unwrap().unwrap();
    assert_eq!(cmd.args, vec!["a", "b"]);
}

#[test]
fn insert_replaces_a_command() {
    let mut sh = dummy_shell();
    sh.insert("say", Cmd::Say("other"));
    sh.exec_once("say");
    assert_eq!(sh.ui().written(), b"other 1\n");
    assert_eq!(sh.list_commands().len(), 5);
    assert!(sh.toolbox().get("say").is_some());
}

#[test]
fn downgrade_keeps_what_is_no_editor() {
    let mut sh = dummy_shell();
    let (script, out) = Script::new(&[]);
    sh.downgrade(Interface::stdio(Box::new(script)));
    assert_eq!(sh.ui().kind(), Transport::Dummy);
    assert_eq!(sh.ui().written(), b"[-] interface is already downgraded\n");
    assert_eq!(&*out.borrow(), b"");
}

#[test]
fn pipe_has_descriptors_for_streams_with_files() {
    let (script, _) = Script::new(&[]);
    let sh = Shell::new(toolbox(), Interface::stdio(Box::new(script)));
    assert_eq!(sh.pipe(), Some((3, 4, 4)));
    let (script, _) = Script::new(&[]);
    let sh = Shell::new(toolbox(), Interface::Ipc(Box::new(script)));
    assert_eq!(sh.pipe(), Some((3, 3, 3)));
    let (script, _) = Script::new(&[]);
    let sh = Shell::new(toolbox(), Interface::Tls(Box::new(script)));
    assert_eq!(sh.pipe(), None);
    let (script, _) = Script::new(&[]);
    let sh = Shell::new(toolbox(), Interface::rw_pair(Box::new(script)));
    assert_eq!(sh.pipe(), None);
    assert_eq!(dummy_shell().pipe(), None);
}

#[test]
fn dummy_cannot_be_read() {
    let mut sh = dummy_shell();
    let mut buf = [0u8; 4];
    assert!(sh.read(&mut buf).is_err());
    assert!(sh.prompt().is_err());
    assert_eq!(sh.get_line(), Err(()));
    assert!(!sh.turn());
    assert_eq!(sh.ui().written(), b"");
}
