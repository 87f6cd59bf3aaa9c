//! The interface that the shell reads from and writes to.
//!
//! An [`Interface`] is one of a closed set of transports. The transports
//! that reach the outside world are handed in by the embedding program as
//! values of the traits [`Stream`] and [`Editor`]; the dummy transport is a
//! buffer in memory. Reading blocks until the transport has data, and
//! nothing cancels it.
//!
//! What a transport answers is its own affair. Each trait has, beside every
//! method that answers, a relation between what the method is handed and
//! what it answers. The relation is the transport's own word: one that
//! gives it no body says nothing, and the interface believes nothing of it.
//! The contracts of the interface say in these terms what it hands to its
//! transport and that it answers what the transport answered.

use vstd::prelude::*;
use vstd::slice::slice_subrange;
use vstd::string::StrSliceExecFns;
use crate::errors::Error;
use crate::text::chars_of;

verus! {

/// Why no line could be read.
#[derive(Debug)]
pub enum PromptError {
    /// The transport failed.
    Io(Error),
    /// The transport is closed.
    Eof,
    /// The line editor gave up, for example on an interrupt.
    Other(String),
}

/// Something to read bytes from.
///
/// The relation [`R::reads`] is the reader's own word on its answers. A
/// reader that gives it no body promises nothing, and nothing is believed of
/// it.
pub trait R {
    /// Whether the reader, as it is, may answer a read with `r` and turn
    /// the buffer from `before` into `after`.
    open spec fn reads(&self, before: Seq<u8>, after: Seq<u8>, r: Result<usize, Error>) -> bool {
        true
    }

    /// Reads some bytes into `buf` and says how many.
    fn read(&mut self, buf: &mut [u8]) -> (r: Result<usize, Error>)
        ensures
            old(self).reads(old(buf)@, final(buf)@, r),
    ;
}

/// Something to write bytes to.
///
/// The relations [`W::writes`] and [`W::flushes`] are the writer's own word
/// on its answers. A writer that gives them no body promises nothing.
pub trait W {
    /// Whether the writer, as it is, may answer a write of `buf` with `r`.
    open spec fn writes(&self, buf: Seq<u8>, r: Result<usize, Error>) -> bool {
        true
    }

    /// Whether the writer, as it is, may answer a flush with `r`.
    open spec fn flushes(&self, r: Result<(), Error>) -> bool {
        true
    }

    /// Writes some bytes of `buf` and says how many.
    fn write(&mut self, buf: &[u8]) -> (r: Result<usize, Error>)
        ensures
            old(self).writes(buf@, r),
    ;

    /// Sends on what was written.
    fn flush(&mut self) -> (r: Result<(), Error>)
        ensures
            old(self).flushes(r),
    ;
}

/// Wraps a reader and a writer into one object that reads and writes: it
/// reads what the reader reads, and writes and flushes what the writer
/// does.
#[derive(Debug)]
pub struct RW<A: R, B: W>(pub A, pub B);

impl<A: R, B: W> R for RW<A, B> {
    open spec fn reads(&self, before: Seq<u8>, after: Seq<u8>, r: Result<usize, Error>) -> bool {
        self.0.reads(before, after, r)
    }

    fn read(&mut self, buf: &mut [u8]) -> (r: Result<usize, Error>)
        ensures
            final(self).1 == old(self).1,
    {
        self.0.read(buf)
    }
}

impl<A: R, B: W> W for RW<A, B> {
    open spec fn writes(&self, buf: Seq<u8>, r: Result<usize, Error>) -> bool {
        self.1.writes(buf, r)
    }

    open spec fn flushes(&self, r: Result<(), Error>) -> bool {
        self.1.flushes(r)
    }

    fn write(&mut self, buf: &[u8]) -> (r: Result<usize, Error>)
        ensures
            final(self).0 == old(self).0,
    {
        self.1.write(buf)
    }

    fn flush(&mut self) -> (r: Result<(), Error>)
        ensures
            final(self).0 == old(self).0,
    {
        self.1.flush()
    }
}

/// A buffered transport of bytes in both directions.
///
/// The relations are the stream's own word on its answers. A stream that
/// gives them no body promises nothing, and nothing is believed of it.
pub trait Stream {
    /// Whether the stream, as it is, may answer a read with `r` and turn
    /// the buffer from `before` into `after`.
    open spec fn reads(&self, before: Seq<u8>, after: Seq<u8>, r: Result<usize, Error>) -> bool {
        true
    }

    /// Whether the stream, as it is, may answer a write of `buf` with `r`.
    open spec fn writes(&self, buf: Seq<u8>, r: Result<usize, Error>) -> bool {
        true
    }

    /// Whether the stream, as it is, may answer a flush with `r`.
    open spec fn flushes(&self, r: Result<(), Error>) -> bool {
        true
    }

    /// Whether the stream, as it is, may answer the reading of a line with
    /// `r` and turn the text from `before` into `after`.
    open spec fn reads_line(&self, before: Seq<char>, after: Seq<char>, r: Result<usize, Error>) -> bool {
        true
    }

    /// Reads some bytes into `buf` and says how many.
    fn read(&mut self, buf: &mut [u8]) -> (r: Result<usize, Error>)
        ensures
            old(self).reads(old(buf)@, final(buf)@, r),
    ;

    /// Writes some bytes of `buf` and says how many.
    fn write(&mut self, buf: &[u8]) -> (r: Result<usize, Error>)
        ensures
            old(self).writes(buf@, r),
    ;

    /// Sends on what was written.
    fn flush(&mut self) -> (r: Result<(), Error>)
        ensures
            old(self).flushes(r),
    ;

    /// Appends the next line to `buf`, its line feed included, and says how
    /// many bytes that were. At the end of the input nothing is appended.
    fn read_line(&mut self, buf: &mut String) -> (r: Result<usize, Error>)
        ensures
            old(self).reads_line(old(buf)@, final(buf)@, r),
    ;

    /// Whether the stream, as it is, may name `r` as its file descriptors.
    open spec fn has_fds(&self, r: Option<(i32, i32)>) -> bool {
        true
    }

    /// The file descriptors to read from and to write to, where the
    /// transport has any.
    fn raw_fds(&self) -> (r: Option<(i32, i32)>)
        ensures
            self.has_fds(r),
    ;
}

/// A terminal with line editing.
///
/// The relations are the editor's own word on its answers. An editor that
/// gives them no body promises nothing, and nothing is believed of it.
pub trait Editor {
    /// Whether the editor, as it is, may answer a read with `r` and turn
    /// the buffer from `before` into `after`.
    open spec fn reads(&self, before: Seq<u8>, after: Seq<u8>, r: Result<usize, Error>) -> bool {
        true
    }

    /// Whether the editor, as it is, may answer a write of `buf` with `r`.
    open spec fn writes(&self, buf: Seq<u8>, r: Result<usize, Error>) -> bool {
        true
    }

    /// Whether the editor, as it is, may answer a flush with `r`.
    open spec fn flushes(&self, r: Result<(), Error>) -> bool {
        true
    }

    /// Whether the editor, as it is, may answer with `r` when it shows
    /// `prompt` and completes to `commands`.
    open spec fn edits(
        &self,
        prompt: Seq<char>,
        commands: Seq<Seq<char>>,
        r: Result<String, PromptError>,
    ) -> bool {
        true
    }

    /// Reads some bytes into `buf` and says how many.
    fn read(&mut self, buf: &mut [u8]) -> (r: Result<usize, Error>)
        ensures
            old(self).reads(old(buf)@, final(buf)@, r),
    ;

    /// Writes some bytes of `buf` and says how many.
    fn write(&mut self, buf: &[u8]) -> (r: Result<usize, Error>)
        ensures
            old(self).writes(buf@, r),
    ;

    /// Sends on what was written.
    fn flush(&mut self) -> (r: Result<(), Error>)
        ensures
            old(self).flushes(r),
    ;

    /// Shows `prompt` and lets the user edit one line. `commands` are the
    /// names that the first word of the line completes to.
    fn readline(&mut self, prompt: &str, commands: &Vec<String>) -> (r: Result<String, PromptError>)
        ensures
            old(self).edits(prompt@, crate::text::views(commands@), r),
    ;

    /// Whether the editor, as it is, may be told to remember `line`.
    open spec fn remembers(&self, line: Seq<char>) -> bool {
        true
    }

    /// Remembers a line for the history.
    fn add_history_entry(&mut self, line: &str)
        ensures
            old(self).remembers(line@),
    ;
}

/// The transports, by name.
#[derive(Clone, Copy, Debug, PartialEq, Eq)]
pub enum Transport {
    /// A terminal with line editing.
    Fancy,
    /// Standard input and output.
    Stdio,
    /// A file to read from and one to write to.
    File,
    /// Any reader with any writer.
    RWPair,
    /// A TLS connection.
    Tls,
    /// A Unix domain socket.
    Ipc,
    /// A buffer in memory that takes what is written.
    Dummy,
}

/// The interface that the shell uses.
pub enum Interface {
    /// A terminal with line editing.
    Fancy(Box<dyn Editor>),
    /// Standard input and output.
    Stdio(Box<dyn Stream>),
    /// A file to read from and one to write to.
    File(Box<dyn Stream>),
    /// Any reader with any writer.
    RWPair(Box<dyn Stream>),
    /// A TLS connection.
    Tls(Box<dyn Stream>),
    /// A Unix domain socket.
    Ipc(Box<dyn Stream>),
    /// A buffer in memory that takes what is written. It cannot be read.
    Dummy(Vec<u8>),
}

/// Whether `c` is white space: a character with the Unicode property
/// `White_Space`.
pub open spec fn is_whitespace(c: char) -> bool {
    let n = c as u32;
    ||| 0x09 <= n <= 0x0d
    ||| n == 0x20
    ||| n == 0x85
    ||| n == 0xa0
    ||| n == 0x1680
    ||| 0x2000 <= n <= 0x200a
    ||| n == 0x2028
    ||| n == 0x2029
    ||| n == 0x202f
    ||| n == 0x205f
    ||| n == 0x3000
}

/// `s` without the white space at its end.
pub open spec fn trimmed(s: Seq<char>) -> Seq<char>
    decreases s.len(),
{
    if s.len() > 0 && is_whitespace(s.last()) {
        trimmed(s.drop_last())
    } else {
        s
    }
}

/// What a prompt answers for the raw line `raw` that the transport gave:
/// nothing at the end of the input, else the line without the white space at
/// its end.
pub open spec fn finished(raw: Seq<char>) -> Option<Seq<char>> {
    if raw.len() == 0 {
        None
    } else {
        Some(trimmed(raw))
    }
}

/// What is left of a line does not end in white space, and is the line's
/// beginning.
pub proof fn lemma_trimmed(s: Seq<char>)
    ensures
        trimmed(s).len() <= s.len(),
        trimmed(s) == s.take(trimmed(s).len() as int),
        trimmed(s).len() > 0 ==> !is_whitespace(trimmed(s).last()),
        forall|i: int| trimmed(s).len() <= i < s.len() ==> is_whitespace(s[i]),
    decreases s.len(),
{
    if s.len() > 0 && is_whitespace(s.last()) {
        lemma_trimmed(s.drop_last());
        let t = trimmed(s);
        assert(t =~= s.take(t.len() as int)) by {
            assert(s.drop_last().take(t.len() as int) =~= s.take(t.len() as int));
        }
        assert forall|i: int| t.len() <= i < s.len() implies is_whitespace(s[i]) by {
            if i < s.len() - 1 {
                assert(s[i] == s.drop_last()[i]);
            }
        }
    } else {
        assert(s =~= s.take(s.len() as int));
    }
}

/// Trimming twice is trimming once.
pub proof fn lemma_trimmed_is_idempotent(s: Seq<char>)
    ensures
        trimmed(trimmed(s)) == trimmed(s),
    decreases s.len(),
{
    if s.len() > 0 && is_whitespace(s.last()) {
        lemma_trimmed_is_idempotent(s.drop_last());
    }
}

/// Whether `c` is white space.
pub fn whitespace(c: char) -> (r: bool)
    ensures
        r == is_whitespace(c),
{
    let n = c as u32;
    (0x09 <= n && n <= 0x0d) || n == 0x20 || n == 0x85 || n == 0xa0 || n == 0x1680 || (0x2000 <= n
        && n <= 0x200a) || n == 0x2028 || n == 0x2029 || n == 0x202f || n == 0x205f || n == 0x3000
}

/// The line without the white space at its end.
pub fn trim_end(line: &str) -> (out: String)
    ensures
        out@ == trimmed(line@),
{
    let chars = chars_of(line);
    let mut n = chars.len();
    assert(chars@.take(n as int) =~= chars@);
    while n > 0 && whitespace(chars[n - 1])
        invariant
            n <= chars.len(),
            trimmed(chars@) == trimmed(chars@.take(n as int)),
        decreases n,
    {
        proof {
            assert(chars@.take(n as int).drop_last() =~= chars@.take(n - 1));
        }
        n -= 1;
    }
    line.substring_char(0, n).to_owned()
}

/// Turns the raw line that a transport gave into the answer of a prompt:
/// the end of the input if the line is empty, else the line without the
/// white space at its end.
pub fn finish_line(raw: &str) -> (r: Result<String, PromptError>)
    ensures
        match r {
            Ok(line) => finished(raw@) == Some(line@),
            Err(e) => finished(raw@) is None && e is Eof,
        },
{
    if raw.is_empty() {
        Err(PromptError::Eof)
    } else {
        Ok(trim_end(raw))
    }
}

/// The file descriptors for the input, the output and the errors of a child
/// process, given the transport and the descriptors that its stream has for
/// reading and writing. Standard input and output and files give the child
/// the writing side for its errors too; a socket gives it one descriptor for
/// all three; the other transports have nothing to give.
pub open spec fn piped(transport: Transport, fds: Option<(i32, i32)>) -> Option<(i32, i32, i32)> {
    match (transport, fds) {
        (Transport::Stdio, Some((r, w))) => Some((r, w, w)),
        (Transport::File, Some((r, w))) => Some((r, w, w)),
        (Transport::Ipc, Some((fd, _))) => Some((fd, fd, fd)),
        _ => None,
    }
}

/// The file descriptors for a child process, given the transport and the
/// descriptors of its stream.
pub fn pipe_of(transport: Transport, fds: Option<(i32, i32)>) -> (r: Option<(i32, i32, i32)>)
    ensures
        r == piped(transport, fds),
{
    match (transport, fds) {
        (Transport::Stdio, Some((r, w))) => Some((r, w, w)),
        (Transport::File, Some((r, w))) => Some((r, w, w)),
        (Transport::Ipc, Some((fd, _))) => Some((fd, fd, fd)),
        _ => None,
    }
}

/// Whether some transport may answer a write of `buf` with `answer`: some
/// stream, if `on` is nothing, else some interface on the transport `on`.
pub open spec fn written_on(on: Option<Transport>, buf: Seq<u8>, answer: Result<usize, Error>) -> bool {
    match on {
        None => exists|left: Box<dyn Stream>| #[trigger] left.writes(buf, answer),
        Some(transport) => exists|left: Interface|
            #[trigger] left.writes(buf, answer) && left.transport() == transport,
    }
}

/// What the answer `first` of a transport to a write of `buf` means for
/// the writing of all of `buf`: a failure is handed on as it is; a transport
/// that takes nothing is a failure; a transport that takes everything is the
/// success; and after anything less the rest of `buf` is handed to the
/// transport as the write left it, and the answer to that settles the
/// outcome in the same way.
pub open spec fn settled(
    on: Option<Transport>,
    buf: Seq<u8>,
    first: Result<usize, Error>,
    r: Result<(), Error>,
) -> bool
    decreases buf.len(),
{
    match first {
        Err(e) => r == Err::<(), Error>(e),
        Ok(n) => if n == 0 {
            r is Err
        } else if n >= buf.len() {
            r is Ok
        } else {
            exists|next: Result<usize, Error>|
                #[trigger] written_on(on, buf.skip(n as int), next) && settled(
                    on,
                    buf.skip(n as int),
                    next,
                    r,
                )
        },
    }
}

/// Whether, once the first `off` bytes of `buf` are written, the outcome
/// of writing the rest is the outcome of writing all of `buf`, given that
/// the first write of it was answered with `first`.
pub open spec fn carries_on(
    on: Option<Transport>,
    buf: Seq<u8>,
    first: Result<usize, Error>,
    off: int,
) -> bool {
    forall|next: Result<usize, Error>, r: Result<(), Error>|
        written_on(on, buf.skip(off), next) && #[trigger] settled(on, buf.skip(off), next, r)
            ==> settled(on, buf, first, r)
}

/// Writing a piece of what is left carries the writing on.
pub proof fn lemma_carries_on(
    on: Option<Transport>,
    buf: Seq<u8>,
    first: Result<usize, Error>,
    off: int,
    answer: Result<usize, Error>,
)
    requires
        0 <= off < buf.len(),
        carries_on(on, buf, first, off),
        written_on(on, buf.skip(off), answer),
        answer matches Ok(n) && 0 < n < buf.len() - off,
    ensures
        carries_on(on, buf, first, off + answer->Ok_0),
{
    let n = answer->Ok_0 as int;
    let rest = buf.skip(off);
    assert(rest.skip(n) =~= buf.skip(off + n));
    assert forall|next: Result<usize, Error>, r: Result<(), Error>|
        written_on(on, buf.skip(off + n), next) && #[trigger] settled(
            on,
            buf.skip(off + n),
            next,
            r,
        ) implies settled(on, buf, first, r) by {
        assert(written_on(on, rest.skip(n), next));
        assert(settled(on, rest, answer, r));
    }
}

/// Whether `r` may be the outcome of writing all of `buf` to the stream
/// `x`: nothing is written of an empty buffer, and that succeeds; else the
/// stream is first handed the whole buffer, and its answer settles the
/// outcome as [`settled`] says.
pub open spec fn written_all(x: &Box<dyn Stream>, buf: Seq<u8>, r: Result<(), Error>) -> bool {
    if buf.len() == 0 {
        r is Ok
    } else {
        exists|first: Result<usize, Error>|
            #[trigger] x.writes(buf, first) && settled(None, buf, first, r)
    }
}

/// Writes all of `buf` to the stream, in as many pieces as the stream
/// takes. A stream that takes nothing is an error.
pub fn write_all(x: &mut Box<dyn Stream>, buf: &[u8]) -> (r: Result<(), Error>)
    ensures
        written_all(old(x), buf@, r),
        buf@.len() == 0 ==> *final(x) == *old(x),
{
    if buf.len() == 0 {
        return Ok(());
    }
    let first = x.write(buf);
    proof {
        assert(old(x).writes(buf@, first));
    }
    let mut off: usize = match first {
        Ok(n) => {
            if n == 0 {
                return Err(Error::io("failed to write whole buffer"));
            }
            if n >= buf.len() {
                buf.len()
            } else {
                n
            }
        },
        Err(e) => {
            return Err(e);
        },
    };
    proof {
        assert(buf@.skip(buf@.len() as int).len() == 0);
    }
    while off < buf.len()
        invariant
            0 < off <= buf.len(),
            old(x).writes(buf@, first),
            first is Ok,
            off == buf.len() ==> settled(None, buf@, first, Ok::<(), Error>(())),
            off < buf.len() ==> carries_on(None, buf@, first, off as int),
        decreases buf.len() - off,
    {
        let ghost now = *x;
        let rest = slice_subrange(buf, off, buf.len());
        let answer = x.write(rest);
        proof {
            assert(rest@ =~= buf@.skip(off as int));
            assert(now.writes(buf@.skip(off as int), answer));
            assert(written_on(None, buf@.skip(off as int), answer));
        }
        let n = match answer {
            Ok(n) => n,
            Err(e) => {
                let r = Err(e);
                proof {
                    assert(settled(None, buf@.skip(off as int), answer, r));
                }
                return r;
            },
        };
        if n == 0 {
            let r = Err(Error::io("failed to write whole buffer"));
            proof {
                assert(settled(None, buf@.skip(off as int), answer, r));
            }
            return r;
        }
        if n >= buf.len() - off {
            proof {
                assert(settled(None, buf@.skip(off as int), answer, Ok::<(), Error>(())));
            }
            off = buf.len();
        } else {
            proof {
                lemma_carries_on(None, buf@, first, off as int, answer);
            }
            off += n;
        }
    }
    Ok(())
}

/// Whether `r` may be the answer of the stream `x` when a line is read
/// from it: the stream is handed an empty text to append the line to; if
/// that fails, the failure is the answer; else the answer is what
/// [`finished`] makes of the text that the stream appended.
pub open spec fn line_read(x: &Box<dyn Stream>, r: Result<String, PromptError>) -> bool {
    exists|raw: Seq<char>, got: Result<usize, Error>|
        #[trigger] x.reads_line(Seq::empty(), raw, got) && match got {
            Err(e) => r == Err::<String, PromptError>(PromptError::Io(e)),
            Ok(_) => match r {
                Ok(line) => finished(raw) == Some(line@),
                Err(e) => finished(raw) is None && e is Eof,
            },
        }
}

/// Whether `r` may be the answer of the stream `x` when it is flushed and
/// a line is then read from it: if the flush fails, the failure is the
/// answer; else the line is read from the stream as the flush left it.
pub open spec fn flushed_and_read(x: &Box<dyn Stream>, r: Result<String, PromptError>) -> bool {
    exists|flushed: Result<(), Error>|
        #[trigger] x.flushes(flushed) && match flushed {
            Err(e) => r == Err::<String, PromptError>(PromptError::Io(e)),
            Ok(()) => exists|left: Box<dyn Stream>| #[trigger] line_read(&left, r),
        }
}

/// Whether `r` may be the answer of the stream `x` to the prompt `prompt`.
///
/// The prompt is written first, all of it; if that fails, the failure is the
/// answer. Then the stream is flushed and a line is read from it, each on
/// the stream as the step before left it. An empty prompt is not written,
/// the stream is flushed as it is.
pub open spec fn asked(x: &Box<dyn Stream>, prompt: Seq<char>, r: Result<String, PromptError>) -> bool {
    let bytes = vstd::utf8::encode_utf8(prompt);
    if bytes.len() == 0 {
        flushed_and_read(x, r)
    } else {
        exists|written: Result<(), Error>|
            #[trigger] written_all(x, bytes, written) && match written {
                Err(e) => r == Err::<String, PromptError>(PromptError::Io(e)),
                Ok(()) => exists|left: Box<dyn Stream>| #[trigger] flushed_and_read(&left, r),
            }
    }
}

impl Interface {
    /// Which transport this is.
    pub open spec fn transport(self) -> Transport {
        match self {
            Interface::Fancy(_) => Transport::Fancy,
            Interface::Stdio(_) => Transport::Stdio,
            Interface::File(_) => Transport::File,
            Interface::RWPair(_) => Transport::RWPair,
            Interface::Tls(_) => Transport::Tls,
            Interface::Ipc(_) => Transport::Ipc,
            Interface::Dummy(_) => Transport::Dummy,
        }
    }

    /// What the dummy transport holds; nothing for the others.
    pub open spec fn sink(self) -> Seq<u8> {
        match self {
            Interface::Dummy(bytes) => bytes@,
            _ => Seq::empty(),
        }
    }

    /// Whether this is the dummy transport and `after` is what it becomes
    /// when it collects `buf`: the dummy that holds `buf` behind what this
    /// one held.
    pub open spec fn collected(self, buf: Seq<u8>, after: Interface) -> bool {
        self is Dummy && after is Dummy && after.sink() == self.sink() + buf
    }

    /// Whether the interface may become `after` and answer `r` when all of
    /// `buf` is written to it.
    ///
    /// The transport stays what it is. Nothing is written of an empty buffer:
    /// that succeeds and changes nothing. Else the transport is first handed
    /// the whole buffer, and its answer settles the outcome as [`settled`]
    /// says. The dummy transport collects all of the buffer.
    pub open spec fn wrote_all(&self, buf: Seq<u8>, after: Interface, r: Result<(), Error>) -> bool {
        &&& after.transport() == self.transport()
        &&& self is Dummy ==> r is Ok && self.collected(buf, after)
        &&& if buf.len() == 0 {
            r is Ok && after == *self
        } else {
            exists|first: Result<usize, Error>|
                #[trigger] self.writes(buf, first) && settled(
                    Some(self.transport()),
                    buf,
                    first,
                    r,
                )
        }
    }

    /// Whether the interface may become `after` when it is told to remember
    /// `line`: the line editor is told the line and stays the line editor;
    /// any other transport keeps no history and stays as it is.
    pub open spec fn remembered(&self, line: Seq<char>, after: Interface) -> bool {
        match self {
            Interface::Fancy(x) => x.remembers(line) && after is Fancy,
            _ => after == *self,
        }
    }

    /// Whether the interface may name `r` as the file descriptors for a
    /// child process: what [`piped`] makes of the descriptors that the stream
    /// names, for the transports that have any to give.
    pub open spec fn pipes(&self, r: Option<(i32, i32, i32)>) -> bool {
        match self {
            Interface::Stdio(x) => exists|fds: Option<(i32, i32)>|
                #[trigger] x.has_fds(fds) && r == piped(Transport::Stdio, fds),
            Interface::File(x) => exists|fds: Option<(i32, i32)>|
                #[trigger] x.has_fds(fds) && r == piped(Transport::File, fds),
            Interface::Ipc(x) => exists|fds: Option<(i32, i32)>|
                #[trigger] x.has_fds(fds) && r == piped(Transport::Ipc, fds),
            _ => r is None,
        }
    }

    /// The state of an interface after something was done that writes
    /// nothing.
    pub open spec fn kept(self, after: Interface) -> bool {
        &&& after.transport() == self.transport()
        &&& self is Dummy ==> after == self
    }

    /// The stream of the interface, for the transports that have one.
    pub open spec fn stream(&self) -> Option<&Box<dyn Stream>> {
        match self {
            Interface::Stdio(x) => Some(x),
            Interface::File(x) => Some(x),
            Interface::RWPair(x) => Some(x),
            Interface::Tls(x) => Some(x),
            Interface::Ipc(x) => Some(x),
            _ => None,
        }
    }

    /// Whether the interface may answer a read with `r` and turn the buffer
    /// from `before` into `after`: as its transport answers. The dummy
    /// transport cannot be read: it fails and leaves the buffer alone.
    pub open spec fn reads(&self, before: Seq<u8>, after: Seq<u8>, r: Result<usize, Error>) -> bool {
        match self {
            Interface::Fancy(x) => x.reads(before, after, r),
            Interface::Dummy(_) => r is Err && after == before,
            _ => self.stream()->0.reads(before, after, r),
        }
    }

    /// Whether the interface may answer a write of `buf` with `r`: as its
    /// transport answers. The dummy transport takes all of it.
    pub open spec fn writes(&self, buf: Seq<u8>, r: Result<usize, Error>) -> bool {
        match self {
            Interface::Fancy(x) => x.writes(buf, r),
            Interface::Dummy(_) => r == Ok::<usize, Error>(buf.len() as usize),
            _ => self.stream()->0.writes(buf, r),
        }
    }

    /// Whether the interface may answer a flush with `r`: as its transport
    /// answers. The dummy transport has nothing to send and succeeds.
    pub open spec fn flushes(&self, r: Result<(), Error>) -> bool {
        match self {
            Interface::Fancy(x) => x.flushes(r),
            Interface::Dummy(_) => r is Ok,
            _ => self.stream()->0.flushes(r),
        }
    }

    /// Whether the interface may answer the prompt `prompt` with `r`: the
    /// line editor as it says itself, given the names that it completes to;
    /// a stream as [`asked`] says; the dummy transport with a failure.
    pub open spec fn prompts(
        &self,
        prompt: Seq<char>,
        commands: Seq<Seq<char>>,
        r: Result<String, PromptError>,
    ) -> bool {
        match self {
            Interface::Fancy(x) => x.edits(prompt, commands, r),
            Interface::Dummy(_) => r matches Err(e) && e is Io,
            _ => asked(self.stream()->0, prompt, r),
        }
    }

    /// The interface to start with: the line editor where there is one,
    /// else standard input and output.
    pub fn default(editor: Option<Box<dyn Editor>>, plain: Box<dyn Stream>) -> (ui: Interface)
        ensures
            ui == match editor {
                Some(editor) => Interface::Fancy(editor),
                None => Interface::Stdio(plain),
            },
    {
        match editor {
            Some(editor) => Interface::Fancy(editor),
            None => Interface::Stdio(plain),
        }
    }

    /// An interface on a terminal with line editing.
    pub fn fancy(editor: Box<dyn Editor>) -> (ui: Interface)
        ensures
            ui == Interface::Fancy(editor),
    {
        Interface::Fancy(editor)
    }

    /// An interface on standard input and output.
    pub fn stdio(stream: Box<dyn Stream>) -> (ui: Interface)
        ensures
            ui == Interface::Stdio(stream),
    {
        Interface::Stdio(stream)
    }

    /// An interface that reads from one file and writes to another.
    pub fn file(stream: Box<dyn Stream>) -> (ui: Interface)
        ensures
            ui == Interface::File(stream),
    {
        Interface::File(stream)
    }

    /// An interface on any reader and any writer.
    pub fn rw_pair(stream: Box<dyn Stream>) -> (ui: Interface)
        ensures
            ui == Interface::RWPair(stream),
    {
        Interface::RWPair(stream)
    }

    /// A dummy interface that holds nothing yet.
    pub fn dummy() -> (ui: Interface)
        ensures
            ui is Dummy,
            ui.sink() == Seq::<u8>::empty(),
    {
        Interface::Dummy(Vec::new())
    }

    /// Which transport this is.
    pub fn kind(&self) -> (t: Transport)
        ensures
            t == self.transport(),
    {
        match self {
            Interface::Fancy(_) => Transport::Fancy,
            Interface::Stdio(_) => Transport::Stdio,
            Interface::File(_) => Transport::File,
            Interface::RWPair(_) => Transport::RWPair,
            Interface::Tls(_) => Transport::Tls,
            Interface::Ipc(_) => Transport::Ipc,
            Interface::Dummy(_) => Transport::Dummy,
        }
    }

    /// What has been written to the dummy transport; nothing for the
    /// others.
    pub fn written(&self) -> (bytes: Vec<u8>)
        ensures
            bytes@ == self.sink(),
    {
        match self {
            Interface::Dummy(held) => held.clone(),
            _ => Vec::new(),
        }
    }

    /// Shows the prompt on a stream and reads one line from it.
    ///
    /// Fails with [`PromptError::Eof`] when the stream is closed, and with
    /// [`PromptError::Io`] when it fails. A line that was read has no white
    /// space at its end.
    pub fn readline_raw(prompt: &str, x: &mut Box<dyn Stream>) -> (r: Result<String, PromptError>)
        ensures
            asked(old(x), prompt@, r),
            match r {
                Ok(line) => trimmed(line@) == line@,
                Err(e) => e is Io || e is Eof,
            },
    {
        let bytes = prompt.as_bytes();
        let written = write_all(x, bytes);
        let ghost after_write = *x;
        match written {
            Ok(()) => {},
            Err(e) => {
                return Err(PromptError::Io(e));
            },
        }
        let flushed = x.flush();
        let ghost after_flush = *x;
        proof {
            assert(after_write.flushes(flushed));
        }
        match flushed {
            Ok(()) => {},
            Err(e) => {
                let r = Err(PromptError::Io(e));
                proof {
                    assert(flushed_and_read(&after_write, r));
                }
                return r;
            },
        }
        let mut buf = String::new();
        let got = x.read_line(&mut buf);
        proof {
            assert(after_flush.reads_line(Seq::empty(), buf@, got));
        }
        match got {
            Ok(_) => {},
            Err(e) => {
                let r = Err(PromptError::Io(e));
                proof {
                    assert(line_read(&after_flush, r));
                    assert(flushed_and_read(&after_write, r));
                }
                return r;
            },
        }
        let r = finish_line(buf.as_str());
        proof {
            lemma_trimmed_is_idempotent(buf@);
            assert(line_read(&after_flush, r));
            assert(flushed_and_read(&after_write, r));
        }
        r
    }

    /// Shows the prompt and reads one line. The line editor completes the
    /// first word of the line to one of `commands`. The dummy transport
    /// cannot be read: it answers with an error.
    pub fn readline(&mut self, prompt: &str, commands: &Vec<String>) -> (r: Result<
        String,
        PromptError,
    >)
        ensures
            old(self).prompts(prompt@, crate::text::views(commands@), r),
            old(self).kept(*final(self)),
            *old(self) is Dummy ==> r is Err,
            !(*old(self) is Fancy) ==> (r matches Ok(line) ==> trimmed(line@) == line@),
    {
        match self {
            Interface::Fancy(x) => x.readline(prompt, commands),
            Interface::Stdio(x) => Self::readline_raw(prompt, x),
            Interface::File(x) => Self::readline_raw(prompt, x),
            Interface::RWPair(x) => Self::readline_raw(prompt, x),
            Interface::Tls(x) => Self::readline_raw(prompt, x),
            Interface::Ipc(x) => Self::readline_raw(prompt, x),
            Interface::Dummy(_) => Err(
                PromptError::Io(Error::io("the dummy interface cannot be read")),
            ),
        }
    }

    /// Remembers a line for the history of the line editor. The other
    /// transports keep no history.
    pub fn add_history_entry(&mut self, line: &str)
        ensures
            old(self).remembered(line@, *final(self)),
            old(self).kept(*final(self)),
    {
        match self {
            Interface::Fancy(x) => x.add_history_entry(line),
            _ => {},
        }
    }

    /// The file descriptors for the input, the output and the errors of a
    /// child process that is to talk to this interface, where it has any.
    pub fn pipe(&self) -> (r: Option<(i32, i32, i32)>)
        ensures
            self.pipes(r),
    {
        match self {
            Interface::Stdio(ui) => {
                let fds = ui.raw_fds();
                assert(ui.has_fds(fds));
                pipe_of(Transport::Stdio, fds)
            },
            Interface::File(ui) => {
                let fds = ui.raw_fds();
                assert(ui.has_fds(fds));
                pipe_of(Transport::File, fds)
            },
            Interface::Ipc(ui) => {
                let fds = ui.raw_fds();
                assert(ui.has_fds(fds));
                pipe_of(Transport::Ipc, fds)
            },
            _ => None,
        }
    }

    /// Reads some bytes into `buf` and says how many. The dummy transport
    /// cannot be read: it answers with an error.
    pub fn read(&mut self, buf: &mut [u8]) -> (r: Result<usize, Error>)
        ensures
            old(self).reads(old(buf)@, final(buf)@, r),
            old(self).kept(*final(self)),
            *old(self) is Dummy ==> r is Err,
    {
        match self {
            Interface::Fancy(x) => x.read(buf),
            Interface::Stdio(x) => x.read(buf),
            Interface::File(x) => x.read(buf),
            Interface::RWPair(x) => x.read(buf),
            Interface::Tls(x) => x.read(buf),
            Interface::Ipc(x) => x.read(buf),
            Interface::Dummy(_) => Err(Error::io("the dummy interface cannot be read")),
        }
    }

    /// Writes some bytes of `buf` and says how many. The dummy transport
    /// takes them all.
    pub fn write(&mut self, buf: &[u8]) -> (r: Result<usize, Error>)
        ensures
            old(self).writes(buf@, r),
            final(self).transport() == old(self).transport(),
            *old(self) is Dummy ==> r == Ok::<usize, Error>(buf.len()) && old(self).collected(
                buf@,
                *final(self),
            ),
    {
        match self {
            Interface::Fancy(x) => x.write(buf),
            Interface::Stdio(x) => x.write(buf),
            Interface::File(x) => x.write(buf),
            Interface::RWPair(x) => x.write(buf),
            Interface::Tls(x) => x.write(buf),
            Interface::Ipc(x) => x.write(buf),
            Interface::Dummy(held) => {
                let ghost before = held@;
                let mut i: usize = 0;
                while i < buf.len()
                    invariant
                        i <= buf.len(),
                        held@ == before + buf@.take(i as int),
                    decreases buf.len() - i,
                {
                    held.push(buf[i]);
                    assert(buf@.take(i + 1) =~= buf@.take(i as int).push(buf@[i as int]));
                    i += 1;
                }
                assert(buf@.take(buf.len() as int) =~= buf@);
                Ok(buf.len())
            },
        }
    }

    /// Sends on what was written. The dummy transport has nothing to send.
    pub fn flush(&mut self) -> (r: Result<(), Error>)
        ensures
            old(self).flushes(r),
            old(self).kept(*final(self)),
            *old(self) is Dummy ==> r is Ok,
    {
        match self {
            Interface::Fancy(x) => x.flush(),
            Interface::Stdio(x) => x.flush(),
            Interface::File(x) => x.flush(),
            Interface::RWPair(x) => x.flush(),
            Interface::Tls(x) => x.flush(),
            Interface::Ipc(x) => x.flush(),
            Interface::Dummy(_) => Ok(()),
        }
    }

    /// Writes all of `buf`, in as many pieces as the transport takes. A
    /// transport that takes nothing is an error.
    pub fn write_all(&mut self, buf: &[u8]) -> (r: Result<(), Error>)
        ensures
            old(self).wrote_all(buf@, *final(self), r),
    {
        if buf.len() == 0 {
            return Ok(());
        }
        let ghost on = Some(old(self).transport());
        let first = self.write(buf);
        proof {
            assert(old(self).writes(buf@, first));
        }
        let mut off: usize = match first {
            Ok(n) => {
                if n == 0 {
                    return Err(Error::io("failed to write whole buffer"));
                }
                if n >= buf.len() {
                    buf.len()
                } else {
                    n
                }
            },
            Err(e) => {
                return Err(e);
            },
        };
        while off < buf.len()
            invariant
                0 < off <= buf.len(),
                on == Some(old(self).transport()),
                self.transport() == old(self).transport(),
                old(self).writes(buf@, first),
                first is Ok,
                off == buf.len() ==> settled(on, buf@, first, Ok::<(), Error>(())),
                off < buf.len() ==> carries_on(on, buf@, first, off as int),
                *old(self) is Dummy ==> off == buf.len() && old(self).collected(buf@, *self),
            decreases buf.len() - off,
        {
            let ghost now = *self;
            let rest = slice_subrange(buf, off, buf.len());
            let answer = self.write(rest);
            proof {
                assert(rest@ =~= buf@.skip(off as int));
                assert(now.writes(buf@.skip(off as int), answer));
                assert(written_on(on, buf@.skip(off as int), answer));
            }
            let n = match answer {
                Ok(n) => n,
                Err(e) => {
                    let r = Err(e);
                    proof {
                        assert(settled(on, buf@.skip(off as int), answer, r));
                    }
                    return r;
                },
            };
            if n == 0 {
                let r = Err(Error::io("failed to write whole buffer"));
                proof {
                    assert(settled(on, buf@.skip(off as int), answer, r));
                }
                return r;
            }
            if n >= buf.len() - off {
                proof {
                    assert(settled(on, buf@.skip(off as int), answer, Ok::<(), Error>(())));
                }
                off = buf.len();
            } else {
                proof {
                    lemma_carries_on(on, buf@, first, off as int, answer);
                }
                off += n;
            }
        }
        Ok(())
    }
}

} // verus!
