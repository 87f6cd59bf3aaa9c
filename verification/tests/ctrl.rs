use boxxy::ctrl::{
    finish_line, pipe_of, trim_end, whitespace, write_all, Editor, Interface, PromptError, Stream,
    Transport, R, RW, W,
};
use boxxy::errors::Error;

struct Source(Vec<u8>);
struct Sink(Vec<u8>, u32);

impl R for Source {
    fn read(&mut self, buf: &mut [u8]) -> Result<usize, Error> {
        let n = buf.len().min(self.0.len());
        buf[..n].copy_from_slice(&self.0[..n]);
        self.0.drain(..n);
        Ok(n)
    }
}

impl W for Sink {
    fn write(&mut self, buf: &[u8]) -> Result<usize, Error> {
        self.0.extend_from_slice(buf);
        Ok(buf.len())
    }

    fn flush(&mut self) -> Result<(), Error> {
        self.1 += 1;
        Ok(())
    }
}

/// A stream that takes what it is given in small pieces, or nothing.
struct Slow {
    step: usize,
    taken: Vec<u8>,
    line: Option<String>,
    fail_flush: bool,
}

impl Slow {
    fn new(step: usize, line: Option<&str>) -> Box<dyn Stream> {
        Box::new(Slow { step, taken: Vec::new(), line: line.map(String::from), fail_flush: false })
    }
}

impl Stream for Slow {
    fn read(&mut self, buf: &mut [u8]) -> Result<usize, Error> {
        if buf.is_empty() {
            return Ok(0);
        }
        buf[0] = b'x';
        Ok(1)
    }

    fn write(&mut self, buf: &[u8]) -> Result<usize, Error> {
        if self.step == usize::MAX {
            // claims more than it was given
            self.taken.extend_from_slice(buf);
            return Ok(usize::MAX);
        }
        let n = buf.len().min(self.step);
        self.taken.extend_from_slice(&buf[..n]);
        Ok(n)
    }

    fn flush(&mut self) -> Result<(), Error> {
        if self.fail_flush {
            Err(Error::io("flush failed"))
        } else {
            Ok(())
        }
    }

    fn read_line(&mut self, buf: &mut String) -> Result<usize, Error> {
        match self.line.take() {
            Some(line) if line == "!" => Err(Error::io("read failed")),
            Some(line) => {
                buf.push_str(&line);
                Ok(line.len())
            }
            None => Ok(0),
        }
    }

    fn raw_fds(&self) -> Option<(i32, i32)> {
        None
    }
}

struct Term {
    history: Vec<String>,
}

impl Editor for Term {
    fn read(&mut self, _buf: &mut [u8]) -> Result<usize, Error> {
        Ok(0)
    }

    fn write(&mut self, buf: &[u8]) -> Result<usize, Error> {
        Ok(buf.len())
    }

    fn flush(&mut self) -> Result<(), Error> {
        Ok(())
    }

    fn readline(&mut self, prompt: &str, commands: &Vec<String>) -> Result<String, PromptError> {
        Ok(format!("{}{}:{}", prompt, commands.len(), self.history.join(",")))
    }

    fn add_history_entry(&mut self, line: &str) {
        self.history.push(line.to_string());
    }
}

#[test]
fn whitespace_is_what_the_standard_library_says() {
    let mut c = 0u32;
    while c <= 0x10ffff {
        if let Some(ch) = char::from_u32(c) {
            assert_eq!(whitespace(ch), ch.is_whitespace(), "U+{:04X}", c);
        }
        c += 1;
    }
}

#[test]
fn trim_end_is_what_the_standard_library_does() {
    for line in [
        "",
        " ",
        "abc",
        "abc  ",
        "abc\n",
        "abc\r\n",
        "  abc \t \u{a0}\u{2003}\u{3000}",
        "a b ",
        "\u{85}",
        "x\u{200b}",
        "x\u{feff} ",
        "caf\u{e9}\n",
    ] {
        assert_eq!(trim_end(line), line.trim_end());
    }
    assert_eq!(trim_end("ls -la  \n"), "ls -la");
}

#[test]
fn empty_line_is_the_end_of_the_input() {
    assert!(matches!(finish_line(""), Err(PromptError::Eof)));
    assert_eq!(finish_line("\n").unwrap(), "");
    assert_eq!(finish_line("foo bar \n").unwrap(), "foo bar");
    assert_eq!(finish_line("no newline").unwrap(), "no newline");
}

#[test]
fn write_all_writes_in_pieces() {
    let mut slow = Slow::new(2, None);
    write_all(&mut slow, b"hello").unwrap();
    let mut ui = Interface::Stdio(slow);
    ui.write_all(b" world").unwrap();
    let mut buf = [0u8; 2];
    assert_eq!(ui.read(&mut buf).unwrap(), 1);
    assert_eq!(buf[0], b'x');
}

#[test]
fn write_all_fails_when_nothing_is_taken() {
    let mut stuck = Slow::new(0, None);
    assert!(write_all(&mut stuck, b"hello").is_err());
    assert!(write_all(&mut stuck, b"").is_ok());
    let mut ui = Interface::File(stuck);
    assert!(ui.write_all(b"x").is_err());
    assert!(ui.write_all(b"").is_ok());
}

#[test]
fn write_all_ends_when_the_stream_overstates() {
    let mut liar = Slow::new(usize::MAX, None);
    assert!(write_all(&mut liar, b"hello").is_ok());
}

#[test]
fn readline_raw_reads_one_trimmed_line() {
    let mut stream = Slow::new(1, Some("ls -la \r\n"));
    assert_eq!(Interface::readline_raw("> ", &mut stream).unwrap(), "ls -la");
    assert!(matches!(Interface::readline_raw("> ", &mut stream), Err(PromptError::Eof)));
}

#[test]
fn readline_raw_reports_failures() {
    let mut stream = Slow::new(1, Some("!"));
    assert!(matches!(Interface::readline_raw("> ", &mut stream), Err(PromptError::Io(_))));
    let mut stuck = Slow::new(0, Some("x\n"));
    assert!(matches!(Interface::readline_raw("> ", &mut stuck), Err(PromptError::Io(_))));
    // without a prompt nothing has to be written
    assert_eq!(Interface::readline_raw("", &mut stuck).unwrap(), "x");
    let mut broken: Box<dyn Stream> = Box::new(Slow {
        step: 8,
        taken: Vec::new(),
        line: Some("x\n".to_string()),
        fail_flush: true,
    });
    assert!(matches!(Interface::readline_raw("> ", &mut broken), Err(PromptError::Io(_))));
}

#[test]
fn dummy_takes_everything() {
    let mut ui = Interface::dummy();
    assert_eq!(ui.kind(), Transport::Dummy);
    assert_eq!(ui.write(b"abc").unwrap(), 3);
    assert_eq!(ui.write(b"").unwrap(), 0);
    ui.write_all(b"def").unwrap();
    ui.flush().unwrap();
    assert_eq!(ui.written(), b"abcdef");
    assert!(ui.readline("> ", &Vec::new()).is_err());
    let mut buf = [0u8; 1];
    assert!(ui.read(&mut buf).is_err());
    ui.add_history_entry("x");
    assert_eq!(ui.written(), b"abcdef");
    assert_eq!(ui.pipe(), None);
}

#[test]
fn editor_gets_the_prompt_the_names_and_the_history() {
    let mut ui = Interface::fancy(Box::new(Term { history: Vec::new() }));
    assert_eq!(ui.kind(), Transport::Fancy);
    ui.add_history_entry("one");
    ui.add_history_entry("two");
    let names = vec!["a".to_string(), "b".to_string(), "c".to_string()];
    assert_eq!(ui.readline("$ ", &names).unwrap(), "$ 3:one,two");
    assert_eq!(ui.pipe(), None);
    assert_eq!(ui.written(), b"");
}

#[test]
fn default_prefers_the_editor() {
    let ui = Interface::default(Some(Box::new(Term { history: Vec::new() })), Slow::new(1, None));
    assert_eq!(ui.kind(), Transport::Fancy);
    let ui = Interface::default(None, Slow::new(1, None));
    assert_eq!(ui.kind(), Transport::Stdio);
    assert_eq!(Interface::file(Slow::new(1, None)).kind(), Transport::File);
    assert_eq!(Interface::rw_pair(Slow::new(1, None)).kind(), Transport::RWPair);
}

#[test]
fn rw_reads_from_one_and_writes_to_the_other() {
    let mut rw = RW(Source(b"input".to_vec()), Sink(Vec::new(), 0));
    let mut buf = [0u8; 3];
    assert_eq!(rw.read(&mut buf).unwrap(), 3);
    assert_eq!(&buf, b"inp");
    assert_eq!(rw.write(b"out").unwrap(), 3);
    rw.flush().unwrap();
    assert_eq!((rw.0).0, b"ut");
    assert_eq!((rw.1).0, b"out");
    assert_eq!((rw.1).1, 1);
}

#[test]
fn descriptors_for_a_child() {
    assert_eq!(pipe_of(Transport::Stdio, Some((0, 1))), Some((0, 1, 1)));
    assert_eq!(pipe_of(Transport::File, Some((5, 6))), Some((5, 6, 6)));
    assert_eq!(pipe_of(Transport::Ipc, Some((7, 8))), Some((7, 7, 7)));
    assert_eq!(pipe_of(Transport::Stdio, None), None);
    for transport in [Transport::Fancy, Transport::RWPair, Transport::Tls, Transport::Dummy] {
        assert_eq!(pipe_of(transport, Some((0, 1))), None);
    }
}
