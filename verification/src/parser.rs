//! Turning one line of input into a command: comment detection, the
//! background marker, and the escape-aware tokenizer.

use vstd::prelude::*;
use crate::text::{chars_of, push_char, views};

verus! {

/// What the tokenizer remembers after reading a prefix of a line.
pub struct Scan {
    /// Tokens that a delimiter has already closed.
    pub done: Seq<Seq<char>>,
    /// The token that is being collected.
    pub token: Seq<char>,
    /// Whether the previous character was an unescaped backslash.
    pub escape: bool,
}

/// Whether `c` ends a token: a space or a line feed.
pub open spec fn is_delimiter(c: char) -> bool {
    c == ' ' || c == '\n'
}

/// The tokenizer before it has read anything.
pub open spec fn scan_start() -> Scan {
    Scan { done: Seq::empty(), token: Seq::empty(), escape: false }
}

/// The tokenizer's reaction to one character.
///
/// After a backslash the character is taken literally. Otherwise a delimiter
/// closes the current token (if there is one), a backslash arms the escape,
/// and anything else joins the current token.
pub open spec fn scan_step(s: Scan, c: char) -> Scan {
    if s.escape {
        Scan { done: s.done, token: s.token.push(c), escape: false }
    } else if is_delimiter(c) {
        if s.token.len() > 0 {
            Scan { done: s.done.push(s.token), token: Seq::empty(), escape: false }
        } else {
            s
        }
    } else if c == '\\' {
        Scan { done: s.done, token: s.token, escape: true }
    } else {
        Scan { done: s.done, token: s.token.push(c), escape: false }
    }
}

/// The tokenizer after it has read all of `line`.
pub open spec fn scan(line: Seq<char>) -> Scan
    decreases line.len(),
{
    if line.len() == 0 {
        scan_start()
    } else {
        scan_step(scan(line.drop_last()), line.last())
    }
}

/// The tokens of `line`: the closed tokens, then the open one unless it is
/// empty.
pub open spec fn tokens(line: Seq<char>) -> Seq<Seq<char>> {
    let s = scan(line);
    if s.token.len() > 0 {
        s.done.push(s.token)
    } else {
        s.done
    }
}

/// Whether the first character of `line` that is not a space is `#`.
pub open spec fn comment(line: Seq<char>) -> bool {
    exists|i: int| 0 <= i < line.len() && #[trigger] line[i] == '#' && spaces_before(line, i)
}

/// Whether `line` holds nothing but spaces in front of position `i`.
pub open spec fn spaces_before(line: Seq<char>, i: int) -> bool {
    forall|j: int| 0 <= j < i ==> #[trigger] line[j] == ' '
}

/// Whether `line` ends in the background marker, a space and an ampersand.
pub open spec fn in_background(line: Seq<char>) -> bool {
    line.len() >= 2 && line[line.len() - 2] == ' ' && line[line.len() - 1] == '&'
}

/// `line` without its background marker.
pub open spec fn foreground(line: Seq<char>) -> Seq<char> {
    if in_background(line) {
        line.take(line.len() - 2)
    } else {
        line
    }
}

/// A parsed line: the program, all tokens (the program is the first), and
/// whether the command goes to the background.
#[derive(Debug, PartialEq)]
pub struct InputCmd {
    pub prog: String,
    pub args: Vec<String>,
    pub bg: bool,
}

/// The mathematical content of an [`InputCmd`].
pub struct InputCmdView {
    pub prog: Seq<char>,
    pub args: Seq<Seq<char>>,
    pub bg: bool,
}

impl View for InputCmd {
    type V = InputCmdView;

    open spec fn view(&self) -> InputCmdView {
        InputCmdView { prog: self.prog@, args: views(self.args@), bg: self.bg }
    }
}

/// What a line parses to. Comments and lines without a token give nothing.
pub open spec fn parsed(line: Seq<char>) -> Option<InputCmdView> {
    let t = tokens(foreground(line));
    if comment(line) || t.len() == 0 {
        None
    } else {
        Some(InputCmdView { prog: t[0], args: t, bg: in_background(line) })
    }
}

/// Every token that the tokenizer has closed holds at least one character.
pub proof fn lemma_closed_tokens_are_not_empty(line: Seq<char>)
    ensures
        forall|i: int| 0 <= i < scan(line).done.len() ==> #[trigger] scan(line).done[i].len() > 0,
    decreases line.len(),
{
    if line.len() > 0 {
        lemma_closed_tokens_are_not_empty(line.drop_last());
        let before = scan(line.drop_last());
        let after = scan(line);
        assert(after == scan_step(before, line.last()));
        assert forall|i: int| 0 <= i < after.done.len() implies #[trigger] after.done[i].len()
            > 0 by {
            if i < before.done.len() {
                assert(after.done[i] == before.done[i]);
            } else {
                assert(after.done[i] == before.token);
            }
        }
    }
}

/// No token of a line is empty.
pub proof fn lemma_tokens_are_not_empty(line: Seq<char>)
    ensures
        forall|i: int| 0 <= i < tokens(line).len() ==> #[trigger] tokens(line)[i].len() > 0,
{
    lemma_closed_tokens_are_not_empty(line);
}

/// Whether `s` holds neither a space nor a line feed.
pub open spec fn is_unbroken(s: Seq<char>) -> bool {
    forall|i: int| 0 <= i < s.len() ==> !is_delimiter(#[trigger] s[i])
}

/// In a line without a backslash the tokenizer never arms the escape, and
/// neither the tokens that it has closed nor the open one hold a delimiter.
pub proof fn lemma_scan_without_escapes(line: Seq<char>)
    requires
        forall|i: int| 0 <= i < line.len() ==> line[i] != '\\',
    ensures
        !scan(line).escape,
        is_unbroken(scan(line).token),
        forall|k: int| 0 <= k < scan(line).done.len() ==> is_unbroken(#[trigger] scan(line).done[k]),
    decreases line.len(),
{
    if line.len() > 0 {
        let head = line.drop_last();
        assert forall|i: int| 0 <= i < head.len() implies head[i] != '\\' by {
            assert(head[i] == line[i]);
        }
        lemma_scan_without_escapes(head);
        let before = scan(head);
        let after = scan(line);
        assert(after == scan_step(before, line.last()));
        assert forall|k: int| 0 <= k < after.done.len() implies is_unbroken(
            #[trigger] after.done[k],
        ) by {
            if k < before.done.len() {
                assert(after.done[k] == before.done[k]);
            } else {
                assert(after.done[k] == before.token);
            }
        }
    }
}

/// Without escapes no token holds a space or a line feed: the tokens of a
/// line without a backslash are pieces of the line between delimiters.
pub proof fn lemma_tokens_hold_no_delimiter(line: Seq<char>)
    requires
        forall|i: int| 0 <= i < line.len() ==> line[i] != '\\',
    ensures
        forall|k: int| 0 <= k < tokens(line).len() ==> is_unbroken(#[trigger] tokens(line)[k]),
{
    lemma_scan_without_escapes(line);
    let s = scan(line);
    assert forall|k: int| 0 <= k < tokens(line).len() implies is_unbroken(
        #[trigger] tokens(line)[k],
    ) by {
        if k < s.done.len() {
            assert(tokens(line)[k] == s.done[k]);
        }
    }
}

/// A line whose first character other than a space is `#` is a comment, and
/// parses to nothing.
pub proof fn lemma_leading_hash_is_comment(line: Seq<char>, i: int)
    requires
        0 <= i < line.len(),
        line[i] == '#',
        spaces_before(line, i),
    ensures
        comment(line),
        parsed(line) is None,
{
}

/// A line whose first character other than a space is not `#` is no comment,
/// whatever follows that character.
pub proof fn lemma_hash_after_content_is_no_comment(line: Seq<char>, i: int)
    requires
        0 <= i < line.len(),
        line[i] != ' ',
        line[i] != '#',
        spaces_before(line, i),
    ensures
        !comment(line),
{
    if comment(line) {
        let k = choose|k: int| 0 <= k < line.len() && #[trigger] line[k] == '#' && spaces_before(line, k);
        if i < k {
            assert(line[i] == ' ');
        } else if k < i {
            assert(line[k] == ' ');
        }
    }
}

/// A line of spaces only is no comment.
pub proof fn lemma_blank_is_no_comment(line: Seq<char>)
    requires
        spaces_before(line, line.len() as int),
    ensures
        !comment(line),
{
    if comment(line) {
        let k = choose|k: int| 0 <= k < line.len() && #[trigger] line[k] == '#' && spaces_before(line, k);
        assert(line[k] == ' ');
    }
}

/// Whether the line is a comment: its first character other than a space is
/// `#`.
pub fn is_comment(line: &str) -> (r: bool)
    ensures
        r == comment(line@),
{
    let chars = chars_of(line);
    comment_in(&chars)
}

fn comment_in(chars: &Vec<char>) -> (r: bool)
    ensures
        r == comment(chars@),
{
    let mut i: usize = 0;
    while i < chars.len()
        invariant
            i <= chars.len(),
            spaces_before(chars@, i as int),
        decreases chars.len() - i,
    {
        let c = chars[i];
        if c == '#' {
            return true;
        }
        if c != ' ' {
            proof {
                lemma_hash_after_content_is_no_comment(chars@, i as int);
            }
            return false;
        }
        i += 1;
    }
    proof {
        lemma_blank_is_no_comment(chars@);
    }
    false
}

/// Splits the first `end` characters of `chars` into tokens.
fn tokenize_prefix(chars: &Vec<char>, end: usize) -> (cmd: Vec<String>)
    requires
        end <= chars.len(),
    ensures
        views(cmd@) == tokens(chars@.take(end as int)),
{
    let mut cmd: Vec<String> = Vec::new();
    let mut token = String::new();
    let mut escape = false;
    let mut i: usize = 0;
    assert(views(cmd@) =~= Seq::<Seq<char>>::empty());
    while i < end
        invariant
            i <= end <= chars.len(),
            scan(chars@.take(i as int)) == (Scan { done: views(cmd@), token: token@, escape }),
        decreases end - i,
    {
        let c = chars[i];
        let ghost before = scan(chars@.take(i as int));
        let ghost closed = cmd@;
        proof {
            let p = chars@.take(i + 1);
            assert(p.drop_last() =~= chars@.take(i as int));
            assert(p.last() == c);
            assert(scan(p) == scan_step(before, c));
        }
        if escape {
            push_char(&mut token, c);
            escape = false;
        } else if c == ' ' || c == '\n' {
            if !token.as_str().is_empty() {
                cmd.push(token);
                token = String::new();
                assert(views(cmd@) =~= views(closed).push(before.token));
            }
        } else if c == '\\' {
            escape = true;
        } else {
            push_char(&mut token, c);
        }
        i += 1;
    }
    if !token.as_str().is_empty() {
        let ghost closed = cmd@;
        let ghost open = token@;
        cmd.push(token);
        assert(views(cmd@) =~= views(closed).push(open));
    }
    cmd
}

/// Splits a line into tokens at spaces and line feeds. A backslash makes the
/// character after it part of the token, whatever it is.
pub fn tokenize(line: &str) -> (cmd: Vec<String>)
    ensures
        views(cmd@) == tokens(line@),
        forall|i: int| 0 <= i < cmd.len() ==> #[trigger] cmd[i]@.len() > 0,
{
    let chars = chars_of(line);
    let cmd = tokenize_prefix(&chars, chars.len());
    proof {
        assert(chars@.take(chars.len() as int) =~= line@);
        lemma_tokens_are_not_empty(line@);
        assert forall|i: int| 0 <= i < cmd.len() implies #[trigger] cmd[i]@.len() > 0 by {
            assert(views(cmd@)[i] == cmd[i]@);
        }
    }
    cmd
}

/// Parses a line: nothing for a comment or a line without a token, else the
/// command, with the background flag set if the line ends in ` &`.
pub fn parse_line(line: &str) -> (r: Option<InputCmd>)
    ensures
        match r {
            Some(cmd) => parsed(line@) == Some(cmd@),
            None => parsed(line@) is None,
        },
{
    let chars = chars_of(line);
    if comment_in(&chars) {
        return None;
    }
    let n = chars.len();
    let bg = n >= 2 && chars[n - 2] == ' ' && chars[n - 1] == '&';
    let end = if bg { n - 2 } else { n };
    let cmd = tokenize_prefix(&chars, end);
    proof {
        assert(chars@.take(end as int) =~= foreground(line@));
    }
    if cmd.len() == 0 {
        None
    } else {
        let prog = cmd[0].clone();
        proof {
            assert(views(cmd@)[0] == cmd[0]@);
        }
        Some(InputCmd { prog, args: cmd, bg })
    }
}

} // verus!
