//! Searching lines for a regular expression, as `grep` does.

use vstd::prelude::*;
use crate::busybox::{debug_text, quoted};
use crate::errors::Error;
use crate::shell::{line_bytes, Shell};

verus! {

/// `regex::Regex`, a compiled regular expression. Nothing is known of what
/// is inside.
#[verifier::external_type_specification]
#[verifier::external_body]
pub struct ExRegex(regex::Regex);

/// Whether the `regex` crate compiles `pattern`.
pub uninterp spec fn regex_accepted(pattern: Seq<char>) -> bool;

/// Whether the `regex` crate finds a match of `pattern` anywhere in `text`.
pub uninterp spec fn regex_found(pattern: Seq<char>, text: Seq<char>) -> bool;

/// A regular expression that compiled. The compiled form is never separated
/// from the text that it was compiled from: the only way to make a pattern
/// is [`Pattern::new`].
pub struct Pattern {
    text: String,
    compiled: regex::Regex,
}

/// Compiles a regular expression.
///
/// Trusted: calls `regex::Regex::new` and turns the crate's error into its
/// words. The contract names whether the crate accepts the pattern; nothing
/// is claimed of the words.
#[verifier::external_body]
fn compile(pattern: &str) -> (r: Result<regex::Regex, String>)
    ensures
        r is Ok <==> regex_accepted(pattern@),
{
    regex::Regex::new(pattern).map_err(|e| e.to_string())
}

/// Searches a line for a pattern.
///
/// Trusted: calls `regex::Regex::is_match` on the compiled form that the
/// pattern holds. The contract names the answer by the text of the pattern
/// and the line.
#[verifier::external_body]
fn found(pattern: &Pattern, line: &str) -> (r: bool)
    ensures
        r == regex_found(pattern.text(), line@),
{
    pattern.compiled.is_match(line)
}

impl Pattern {
    /// The text that the pattern was compiled from.
    pub closed spec fn text(self) -> Seq<char> {
        self.text@
    }

    /// Compiles a regular expression. A text that does not compile is an
    /// error.
    pub fn new(pattern: &str) -> (r: Result<Pattern, Error>)
        ensures
            match r {
                Ok(p) => regex_accepted(pattern@) && p.text() == pattern@,
                Err(_) => !regex_accepted(pattern@),
            },
    {
        match compile(pattern) {
            Ok(compiled) => Ok(Pattern { text: pattern.to_owned(), compiled }),
            Err(words) => Err(Error::other(words.as_str())),
        }
    }

    /// Whether the pattern matches anywhere in `line`.
    pub fn is_match(&self, line: &str) -> (r: bool)
        ensures
            r == regex_found(self.text(), line@),
    {
        found(self, line)
    }
}

/// What `grep` prints for a line: the line in double quotes if the pattern
/// matches in it, else nothing.
pub open spec fn grep_bytes(pattern: Seq<char>, line: Seq<char>) -> Seq<u8> {
    if regex_found(pattern, line) {
        line_bytes(debug_text(line))
    } else {
        Seq::empty()
    }
}

/// One step of `grep`: prints the line, in double quotes, if the pattern
/// matches in it.
pub fn grep_line<C>(sh: &mut Shell<C>, pattern: &Pattern, line: &str) -> (r: Result<
    (),
    Error,
>)
    ensures
        if regex_found(pattern.text(), line@) {
            old(sh).printed(debug_text(line@), *final(sh), r)
        } else {
            r is Ok && *final(sh) == *old(sh)
        },
        final(sh).commands() == old(sh).commands(),
        final(sh).interface().transport() == old(sh).interface().transport(),
        old(sh).interface() is Dummy ==> r is Ok && old(sh).collected(
            grep_bytes(pattern.text(), line@),
            *final(sh),
        ),
{
    if pattern.is_match(line) {
        let shown = quoted(line);
        sh.println(shown.as_str())
    } else {
        assert(old(sh).interface().sink() + Seq::<u8>::empty() =~= old(sh).interface().sink());
        Ok(())
    }
}

} // verus!
