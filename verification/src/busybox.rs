//! What the builtin commands compute: the text they print and the
//! arguments they decode. The commands that only print live here whole.

use vstd::prelude::*;
use vstd::string::StringExecFns;
use vstd::string::StrSliceExecFns;
use crate::codec::{base64_decoded, decode};
use crate::ctrl::Interface;
use crate::errors::Error;
use crate::shell::{line_bytes, Shell};
use crate::text::{chars_of, push_char, sort_strings, sorted, views};

verus! {

/// The character for a decimal digit.
pub open spec fn digit_char(d: int) -> char {
    if d == 0 {
        '0'
    } else if d == 1 {
        '1'
    } else if d == 2 {
        '2'
    } else if d == 3 {
        '3'
    } else if d == 4 {
        '4'
    } else if d == 5 {
        '5'
    } else if d == 6 {
        '6'
    } else if d == 7 {
        '7'
    } else if d == 8 {
        '8'
    } else {
        '9'
    }
}

/// The decimal digits of a number, without leading zeros.
pub open spec fn digits(n: nat) -> Seq<char>
    decreases n,
{
    if n < 10 {
        seq![digit_char(n as int)]
    } else {
        digits(n / 10).push(digit_char((n % 10) as int))
    }
}

fn digit(d: u64) -> (c: char)
    requires
        d < 10,
    ensures
        c == digit_char(d as int),
{
    if d == 0 {
        '0'
    } else if d == 1 {
        '1'
    } else if d == 2 {
        '2'
    } else if d == 3 {
        '3'
    } else if d == 4 {
        '4'
    } else if d == 5 {
        '5'
    } else if d == 6 {
        '6'
    } else if d == 7 {
        '7'
    } else if d == 8 {
        '8'
    } else {
        '9'
    }
}

/// Appends the decimal digits of `n` to `out`.
pub fn push_decimal(out: &mut String, n: u64)
    ensures
        final(out)@ == old(out)@ + digits(n as nat),
{
    let mut rev: Vec<char> = Vec::new();
    let mut m = n;
    assert(digits(m as nat) + rev@.reverse() =~= digits(n as nat));
    while m >= 10
        invariant
            digits(n as nat) == digits(m as nat) + rev@.reverse(),
        decreases m,
    {
        let d = digit(m % 10);
        let ghost before = rev@;
        rev.push(d);
        assert(rev@.reverse() =~= seq![d] + before.reverse());
        assert(digits(m as nat) + before.reverse() =~= digits((m / 10) as nat) + rev@.reverse());
        m = m / 10;
    }
    let d = digit(m);
    let ghost before = rev@;
    rev.push(d);
    assert(rev@.reverse() =~= digits(m as nat) + before.reverse());
    let mut i = rev.len();
    let ghost start = out@;
    assert(start + rev@.reverse().take(0) =~= start);
    while i > 0
        invariant
            i <= rev.len(),
            out@ == start + rev@.reverse().take(rev.len() - i),
        decreases i,
    {
        i -= 1;
        push_char(out, rev[i]);
        assert(rev@.reverse().take(rev.len() - i) =~= rev@.reverse().take(rev.len() - i - 1).push(
            rev@[i as int],
        ));
    }
    assert(rev@.reverse().take(rev.len() as int) =~= rev@.reverse());
}

/// The letter for the permission at place `i` of nine: read, write and
/// execute for the owner, the group and the others.
pub open spec fn permission_letter(i: int) -> char {
    if i % 3 == 0 {
        'r'
    } else if i % 3 == 1 {
        'w'
    } else {
        'x'
    }
}

/// The bit of a file mode that stands for the permission at place `i`.
pub open spec fn permission_mask(i: int) -> u32 {
    0o400u32 >> (i as u32)
}

/// A file mode as `ls -l` shows it: `d` for a directory, then for each of
/// the nine permission bits its letter, or a dash where the bit is not set.
/// The bits above the nine do not show.
pub open spec fn mode_string(is_dir: bool, permissions: u32) -> Seq<char> {
    Seq::new(
        10,
        |i: int|
            if i == 0 {
                if is_dir {
                    'd'
                } else {
                    '-'
                }
            } else if permissions & permission_mask(i - 1) != 0 {
                permission_letter(i - 1)
            } else {
                '-'
            },
    )
}

/// Formats a file mode as `ls -l` shows it, such as `drwxr-xr-x`.
pub fn perms_to_str(is_dir: bool, permissions: u32) -> (out: String)
    ensures
        out@ == mode_string(is_dir, permissions),
{
    let mut out = String::new();
    push_char(
        &mut out,
        if is_dir {
            'd'
        } else {
            '-'
        },
    );
    let mut i: u32 = 0;
    while i < 9
        invariant
            i <= 9,
            out@.len() == i + 1,
            forall|k: int| 0 <= k <= i ==> out@[k] == mode_string(is_dir, permissions)[k],
        decreases 9 - i,
    {
        let letter = if i % 3 == 0 {
            'r'
        } else if i % 3 == 1 {
            'w'
        } else {
            'x'
        };
        let set = permissions & (0o400u32 >> i) != 0;
        push_char(
            &mut out,
            if set {
                letter
            } else {
                '-'
            },
        );
        i += 1;
    }
    assert(out@ =~= mode_string(is_dir, permissions));
    out
}

/// A unit of time in which an age is told.
#[derive(Clone, Copy, Debug, PartialEq, Eq)]
pub enum AgeUnit {
    /// Seconds.
    Sec,
    /// Minutes.
    Min,
    /// Hours.
    Hour,
    /// Days.
    Day,
    /// Months of 31 days.
    Month,
    /// Years of twelve such months.
    Year,
}

impl AgeUnit {
    /// The name of the unit.
    pub open spec fn spec_name(self) -> Seq<char> {
        match self {
            AgeUnit::Sec => "sec"@,
            AgeUnit::Min => "min"@,
            AgeUnit::Hour => "hour"@,
            AgeUnit::Day => "day"@,
            AgeUnit::Month => "month"@,
            AgeUnit::Year => "year"@,
        }
    }

    /// How many of this unit make one of the next; nothing for the last.
    pub open spec fn spec_span(self) -> Option<(nat, AgeUnit)> {
        match self {
            AgeUnit::Sec => Some((60, AgeUnit::Min)),
            AgeUnit::Min => Some((60, AgeUnit::Hour)),
            AgeUnit::Hour => Some((24, AgeUnit::Day)),
            AgeUnit::Day => Some((31, AgeUnit::Month)),
            AgeUnit::Month => Some((12, AgeUnit::Year)),
            AgeUnit::Year => None,
        }
    }

    /// The place of the unit among the units.
    pub open spec fn rank(self) -> nat {
        match self {
            AgeUnit::Sec => 0,
            AgeUnit::Min => 1,
            AgeUnit::Hour => 2,
            AgeUnit::Day => 3,
            AgeUnit::Month => 4,
            AgeUnit::Year => 5,
        }
    }

    /// The name of the unit.
    pub fn name(self) -> (r: &'static str)
        ensures
            r@ == self.spec_name(),
    {
        match self {
            AgeUnit::Sec => "sec",
            AgeUnit::Min => "min",
            AgeUnit::Hour => "hour",
            AgeUnit::Day => "day",
            AgeUnit::Month => "month",
            AgeUnit::Year => "year",
        }
    }

    /// How many of this unit make one of the next; nothing for the last.
    pub fn span(self) -> (r: Option<(u64, AgeUnit)>)
        ensures
            match r {
                Some((n, unit)) => self.spec_span() == Some((n as nat, unit)) && n > 0,
                None => self.spec_span() is None,
            },
    {
        match self {
            AgeUnit::Sec => Some((60, AgeUnit::Min)),
            AgeUnit::Min => Some((60, AgeUnit::Hour)),
            AgeUnit::Hour => Some((24, AgeUnit::Day)),
            AgeUnit::Day => Some((31, AgeUnit::Month)),
            AgeUnit::Month => Some((12, AgeUnit::Year)),
            AgeUnit::Year => None,
        }
    }
}

/// An age of `count` of `unit`, told in the largest unit that it fills: as
/// long as the count is more than what makes one of the next unit, it is
/// divided by that, rounding down.
pub open spec fn scaled(count: nat, unit: AgeUnit) -> (nat, AgeUnit)
    decreases 5 - unit.rank(),
{
    match unit.spec_span() {
        Some((n, next)) => if count > n {
            scaled(count / n, next)
        } else {
            (count, unit)
        },
        None => (count, unit),
    }
}

/// The words for an age: the count, the unit, in the plural unless the count
/// is one, and `ago`.
pub open spec fn age_text(count: nat, unit: AgeUnit) -> Seq<char> {
    digits(count) + " "@ + unit.spec_name() + (if count == 1 {
        " ago"@
    } else {
        "s ago"@
    })
}

/// The words for a time that lies `elapsed` whole seconds back: the age
/// rounded down to the largest unit that fits, or `future?!` for a time
/// that is still to come, which has no age.
pub open spec fn since_text(elapsed: Option<u64>) -> Seq<char> {
    match elapsed {
        None => "future?!"@,
        Some(secs) => {
            let (count, unit) = scaled(secs as nat, AgeUnit::Sec);
            age_text(count, unit)
        },
    }
}

/// Tells how long ago a time was, in words such as `3 hours ago`. `elapsed`
/// are the whole seconds since that time, or nothing if the time is still to
/// come.
pub fn since(elapsed: Option<u64>) -> (out: String)
    ensures
        out@ == since_text(elapsed),
{
    let secs = match elapsed {
        Some(secs) => secs,
        None => {
            return String::from_str("future?!");
        },
    };
    let mut count = secs;
    let mut unit = AgeUnit::Sec;
    let mut settled = false;
    while !settled
        invariant
            scaled(count as nat, unit) == scaled(secs as nat, AgeUnit::Sec),
            settled ==> scaled(count as nat, unit) == (count as nat, unit),
        decreases 5 - unit.rank() + (if settled { 0int } else { 1int }),
    {
        match unit.span() {
            Some((n, next)) => {
                if count > n {
                    count = count / n;
                    unit = next;
                } else {
                    settled = true;
                }
            },
            None => {
                settled = true;
            },
        }
    }
    let mut out = String::new();
    push_decimal(&mut out, count);
    out.append(" ");
    out.append(unit.name());
    if count == 1 {
        out.append(" ago");
    } else {
        out.append("s ago");
    }
    assert(out@ =~= age_text(count as nat, unit));
    out
}

/// The value of a hexadecimal digit, if `c` is one.
pub open spec fn hex_value(c: char) -> Option<u8> {
    if '0' <= c <= '9' {
        Some((c as u8 - '0' as u8) as u8)
    } else if 'a' <= c <= 'f' {
        Some((c as u8 - 'a' as u8 + 10) as u8)
    } else if 'A' <= c <= 'F' {
        Some((c as u8 - 'A' as u8 + 10) as u8)
    } else {
        None
    }
}

/// The byte that two characters stand for in base 16: two digits, or a
/// plus sign and one digit.
pub open spec fn hex_pair(high: char, low: char) -> Option<u8> {
    match (hex_value(high), hex_value(low)) {
        (Some(h), Some(l)) => Some((h * 16 + l) as u8),
        (None, Some(l)) => if high == '+' {
            Some(l)
        } else {
            None
        },
        _ => None,
    }
}

/// Whether `c` is dropped before shellcode is decoded: a double quote or a
/// backslash.
pub open spec fn is_wrapping(c: char) -> bool {
    c == '"' || c == '\\'
}

/// The bytes that `text`, a sequence of groups of an `x` and two characters
/// in base 16, stands for; nothing if a group is cut short or malformed.
pub open spec fn hex_groups(text: Seq<char>) -> Option<Seq<u8>>
    decreases text.len(),
{
    if text.len() == 0 {
        Some(Seq::empty())
    } else if text.len() % 3 != 0 {
        None
    } else {
        let n = text.len() - 3;
        match (hex_groups(text.take(n)), hex_pair(text[n + 1], text[n + 2])) {
            (Some(bytes), Some(byte)) => if text[n] == 'x' {
                Some(bytes.push(byte))
            } else {
                None
            },
            _ => None,
        }
    }
}

/// The bytes of shellcode written as `\x41\x42`, with or without quotes
/// around it and with or without the backslashes.
pub open spec fn unhexed(input: Seq<char>) -> Option<Seq<u8>> {
    hex_groups(input.filter(|c: char| !is_wrapping(c)))
}

fn hex_digit(c: char) -> (r: Option<u8>)
    ensures
        r == hex_value(c),
{
    let n = c as u32;
    if 0x30 <= n && n <= 0x39 {
        Some((n - 0x30) as u8)
    } else if 0x61 <= n && n <= 0x66 {
        Some((n - 0x61 + 10) as u8)
    } else if 0x41 <= n && n <= 0x46 {
        Some((n - 0x41 + 10) as u8)
    } else {
        None
    }
}

/// The byte that two characters stand for in base 16.
pub fn parse_hex_byte(high: char, low: char) -> (r: Option<u8>)
    ensures
        r == hex_pair(high, low),
{
    match (hex_digit(high), hex_digit(low)) {
        (Some(h), Some(l)) => Some(h * 16 + l),
        (None, Some(l)) => if high == '+' {
            Some(l)
        } else {
            None
        },
        _ => None,
    }
}

/// Decodes shellcode written as `\x41\x42`. Double quotes and backslashes
/// are dropped first; what is left must be groups of an `x` and two
/// characters in base 16.
pub fn unhexify(input: &str) -> (r: Result<Vec<u8>, Error>)
    ensures
        match r {
            Ok(bytes) => unhexed(input@) == Some(bytes@),
            Err(_) => unhexed(input@) is None,
        },
{
    let chars = chars_of(input);
    let ghost keep = |c: char| !is_wrapping(c);
    let mut text: Vec<char> = Vec::new();
    let mut i: usize = 0;
    assert(chars@.take(0).filter(keep) =~= Seq::<char>::empty());
    while i < chars.len()
        invariant
            i <= chars.len(),
            keep == (|c: char| !is_wrapping(c)),
            text@ == chars@.take(i as int).filter(keep),
        decreases chars.len() - i,
    {
        let c = chars[i];
        proof {
            assert(chars@.take(i + 1) =~= chars@.take(i as int).push(c));
            chars@.take(i as int).lemma_filter_push(c, keep);
        }
        if c != '"' && c != '\\' {
            text.push(c);
        }
        i += 1;
    }
    proof {
        assert(chars@.take(chars.len() as int) =~= chars@);
    }
    if text.len() % 3 != 0 {
        proof {
            lemma_cut_short(text@);
        }
        return Err(Error::other("invalid byte"));
    }
    let mut bytes: Vec<u8> = Vec::new();
    let mut k: usize = 0;
    assert(text@.take(0) =~= Seq::<char>::empty());
    while k < text.len()
        invariant
            k <= text.len(),
            k % 3 == 0,
            text.len() % 3 == 0,
            unhexed(input@) == hex_groups(text@),
            hex_groups(text@.take(k as int)) == Some(bytes@),
        decreases text.len() - k,
    {
        let ghost group = text@.take(k + 3);
        proof {
            assert(group.len() == k + 3);
            assert(group.take(k as int) =~= text@.take(k as int));
            assert(group[k as int] == text[k as int]);
            assert(group[k + 1] == text[k + 1]);
            assert(group[k + 2] == text[k + 2]);
        }
        let byte = if text[k] != 'x' {
            None
        } else {
            parse_hex_byte(text[k + 1], text[k + 2])
        };
        match byte {
            Some(byte) => {
                bytes.push(byte);
            },
            None => {
                proof {
                    assert(hex_groups(group) is None);
                    lemma_broken_stays_broken(text@, k + 3);
                }
                return Err(Error::other("invalid byte"));
            },
        }
        k += 3;
    }
    proof {
        assert(text@.take(text.len() as int) =~= text@);
    }
    Ok(bytes)
}

/// Text whose length is no multiple of three holds a group that is cut
/// short.
pub proof fn lemma_cut_short(text: Seq<char>)
    requires
        text.len() % 3 != 0,
    ensures
        hex_groups(text) is None,
{
}

/// Once a beginning of the text is malformed, the whole text is.
pub proof fn lemma_broken_stays_broken(text: Seq<char>, k: int)
    requires
        0 <= k <= text.len(),
        k % 3 == 0,
        text.len() % 3 == 0,
        hex_groups(text.take(k)) is None,
    ensures
        hex_groups(text) is None,
    decreases text.len() - k,
{
    if k < text.len() {
        let next = text.take(k + 3);
        assert(next.len() == k + 3);
        assert(next.take(k) =~= text.take(k));
        assert(hex_groups(next) is None);
        lemma_broken_stays_broken(text, k + 3);
    } else {
        assert(text.take(k) =~= text);
    }
}

/// Whether the last slash of `path` stands at `i`.
pub open spec fn last_slash_at(path: Seq<char>, i: int) -> bool {
    &&& 0 <= i < path.len()
    &&& path[i] == '/'
    &&& forall|j: int| i < j < path.len() ==> path[j] != '/'
}

/// The name under which the document at `path` is stored: what follows the
/// last slash, or `index.html` where nothing follows it or there is none.
pub open spec fn filename_of(path: Seq<char>) -> Seq<char> {
    if exists|i: int| last_slash_at(path, i) {
        let i = choose|i: int| last_slash_at(path, i);
        if i + 1 == path.len() {
            "index.html"@
        } else {
            path.skip(i + 1)
        }
    } else {
        "index.html"@
    }
}

/// A path has at most one last slash.
pub proof fn lemma_last_slash_is_unique(path: Seq<char>, i: int, j: int)
    requires
        last_slash_at(path, i),
        last_slash_at(path, j),
    ensures
        i == j,
{
    if i < j {
        assert(path[j] != '/');
    }
    if j < i {
        assert(path[i] != '/');
    }
}

/// The file name for a download from the path of a URL.
pub fn filename_from_uri(path: &str) -> (name: String)
    ensures
        name@ == filename_of(path@),
{
    let chars = chars_of(path);
    let mut i = chars.len();
    while i > 0 && chars[i - 1] != '/'
        invariant
            i <= chars.len(),
            forall|j: int| i <= j < chars.len() ==> chars[j] != '/',
        decreases i,
    {
        i -= 1;
    }
    if i == 0 {
        proof {
            if exists|k: int| last_slash_at(chars@, k) {
                let k = choose|k: int| last_slash_at(chars@, k);
                assert(chars[k] != '/');
            }
        }
        return String::from_str("index.html");
    }
    proof {
        assert(last_slash_at(chars@, i - 1));
        let k = choose|k: int| last_slash_at(chars@, k);
        lemma_last_slash_is_unique(chars@, i - 1, k);
    }
    if i == chars.len() {
        String::from_str("index.html")
    } else {
        let name = path.substring_char(i, chars.len());
        assert(name@ =~= path@.skip(i as int));
        name.to_owned()
    }
}

/// The arguments after the first, joined by single spaces.
pub open spec fn joined(args: Seq<Seq<char>>) -> Seq<char>
    decreases args.len(),
{
    if args.len() <= 1 {
        Seq::empty()
    } else if args.len() == 2 {
        args[1]
    } else {
        joined(args.drop_last()) + " "@ + args.last()
    }
}

/// What `echo` prints for its arguments: all but the first, joined by
/// single spaces.
pub fn echo_message(args: &Vec<String>) -> (msg: String)
    ensures
        msg@ == joined(views(args@)),
{
    let mut msg = String::new();
    if args.len() <= 1 {
        return msg;
    }
    let mut i: usize = 1;
    while i < args.len()
        invariant
            1 <= i <= args.len(),
            msg@ == joined(views(args@).take(i as int)),
        decreases args.len() - i,
    {
        let ghost all = views(args@);
        proof {
            assert(all.take(i + 1).drop_last() =~= all.take(i as int));
            assert(all.take(i + 1).last() == args[i as int]@);
            assert(all.take(i + 1)[1] == all.take(i as int + 1)[1]);
            if i >= 2 {
                assert(all.take(i as int).len() >= 2);
            }
        }
        if i > 1 {
            msg.append(" ");
        }
        msg.append(args[i].as_str());
        i += 1;
    }
    proof {
        let all = views(args@);
        assert(all.take(args.len() as int) =~= all);
    }
    msg
}

/// The builtin `echo`: prints its arguments, all but the first, joined by
/// single spaces, on one line.
pub fn echo<C>(sh: &mut Shell<C>, args: Vec<String>) -> (r: Result<(), Error>)
    ensures
        old(sh).printed(joined(views(args@)), *final(sh), r),
        final(sh).commands() == old(sh).commands(),
        final(sh).interface().transport() == old(sh).interface().transport(),
        old(sh).interface() is Dummy ==> r is Ok && old(sh).collected(
            line_bytes(joined(views(args@))),
            *final(sh),
        ),
{
    let msg = echo_message(&args);
    sh.println(msg.as_str())
}

/// A string as the `Debug` formatting of the standard library shows it: in
/// double quotes, with what needs it escaped.
pub uninterp spec fn debug_text(text: Seq<char>) -> Seq<char>;

/// Shows a string in double quotes, with what needs it escaped.
///
/// Trusted: formats a `str` with `{:?}`. The contract names the result.
#[verifier::external_body]
pub(crate) fn quoted(text: &str) -> (out: String)
    ensures
        out@ == debug_text(text@),
{
    format!("{:?}", text)
}

/// The bytes that `help` prints for the names `order`: one line for each,
/// with the name in double quotes.
pub open spec fn help_bytes(order: Seq<Seq<char>>) -> Seq<u8>
    decreases order.len(),
{
    if order.len() == 0 {
        Seq::empty()
    } else {
        help_bytes(order.drop_last()) + line_bytes(debug_text(order.last()))
    }
}

/// Whether `order` lists the names of `commands`, each once, in the order of
/// strings.
pub open spec fn lists_names<C>(order: Seq<Seq<char>>, commands: Map<Seq<char>, C>) -> bool {
    order.no_duplicates() && order.to_set() == commands.dom() && sorted(order)
}

/// Names that were rearranged are still the same names, each once.
pub proof fn lemma_rearranged(before: Seq<Seq<char>>, after: Seq<Seq<char>>)
    requires
        before.no_duplicates(),
        after.to_multiset() == before.to_multiset(),
    ensures
        after.no_duplicates(),
        after.to_set() == before.to_set(),
{
    broadcast use vstd::seq_lib::to_multiset_contains;

    before.lemma_multiset_has_no_duplicates();
    after.lemma_multiset_has_no_duplicates_conv();
    assert forall|x: Seq<char>| after.to_set().contains(x) <==> before.to_set().contains(x) by {
        assert(after.contains(x) <==> after.to_multiset().count(x) > 0);
        assert(before.contains(x) <==> before.to_multiset().count(x) > 0);
    }
    assert(after.to_set() =~= before.to_set());
}

/// The lines that `help` prints for the names `order`: each name in double
/// quotes.
pub open spec fn help_lines(order: Seq<Seq<char>>) -> Seq<Seq<char>> {
    Seq::new(order.len(), |i: int| debug_text(order[i]))
}

/// Whether the shell `sh` may become `after` when the line `text` is
/// printed through it with success.
pub open spec fn printed_well<C>(sh: Shell<C>, text: Seq<char>, after: Shell<C>) -> bool {
    exists|r: Result<(), Error>| r is Ok && #[trigger] sh.printed(text, after, r)
}

/// Whether the shell `sh` may become `after` when the lines `lines` are
/// printed through it one after the other, each with success.
pub open spec fn printed_lines<C>(sh: Shell<C>, lines: Seq<Seq<char>>, after: Shell<C>) -> bool
    decreases lines.len(),
{
    if lines.len() == 0 {
        after == sh
    } else {
        exists|mid: Shell<C>|
            printed_lines(sh, lines.drop_last(), mid) && #[trigger] printed_well(
                mid,
                lines.last(),
                after,
            )
    }
}

/// Lines that were printed, and one more line printed after them, are
/// lines that were printed.
pub proof fn lemma_printed_more<C>(
    sh: Shell<C>,
    lines: Seq<Seq<char>>,
    mid: Shell<C>,
    after: Shell<C>,
)
    requires
        lines.len() > 0,
        printed_lines(sh, lines.drop_last(), mid),
        printed_well(mid, lines.last(), after),
    ensures
        printed_lines(sh, lines, after),
{
}

/// Whether the shell `sh` may become `after` and `help` answer `r` when it
/// lists the names `order` and gets through `n` of them: either that is all
/// of them, each line was printed, and the answer is success; or the line
/// after them failed to print, and that failure is the answer.
pub open spec fn helped<C>(
    sh: Shell<C>,
    order: Seq<Seq<char>>,
    n: int,
    after: Shell<C>,
    r: Result<(), Error>,
) -> bool {
    let lines = help_lines(order);
    &&& 0 <= n <= order.len()
    &&& if n == order.len() {
        r is Ok && printed_lines(sh, lines, after)
    } else {
        r is Err && exists|mid: Shell<C>|
            #[trigger] printed_lines(sh, lines.take(n), mid) && mid.printed(lines[n], after, r)
    }
}

/// The builtin `help`: prints the name of every command, each on a line of
/// its own and in double quotes, in the order in which strings sort. It
/// stops at the first line that cannot be printed.
pub fn help<C>(sh: &mut Shell<C>, args: Vec<String>) -> (r: Result<(), Error>)
    ensures
        exists|order: Seq<Seq<char>>, n: int|
            lists_names(order, old(sh).commands()) && #[trigger] helped(
                *old(sh),
                order,
                n,
                *final(sh),
                r,
            ),
        final(sh).commands() == old(sh).commands(),
        final(sh).interface().transport() == old(sh).interface().transport(),
        old(sh).interface() is Dummy ==> r is Ok && exists|order: Seq<Seq<char>>|
            #![trigger help_bytes(order)]
            lists_names(order, old(sh).commands()) && old(sh).collected(help_bytes(order), *final(sh)),
{
    let names = sh.list_commands();
    let ghost listed = views(names@);
    let commands = sort_strings(names);
    let ghost order = views(commands@);
    let ghost lines = help_lines(order);
    proof {
        lemma_rearranged(listed, order);
        assert(lines.take(0) =~= Seq::<Seq<char>>::empty());
    }
    let mut i: usize = 0;
    assert(old(sh).interface().sink() + help_bytes(order.take(0)) =~= old(sh).interface().sink());
    while i < commands.len()
        invariant
            i <= commands.len(),
            order == views(commands@),
            lines == help_lines(order),
            lists_names(order, old(sh).commands()),
            printed_lines(*old(sh), lines.take(i as int), *sh),
            sh.commands() == old(sh).commands(),
            sh.interface().transport() == old(sh).interface().transport(),
            old(sh).interface() is Dummy ==> sh.interface().sink() == old(sh).interface().sink()
                + help_bytes(order.take(i as int)),
        decreases commands.len() - i,
    {
        let line = quoted(commands[i].as_str());
        let ghost before = *sh;
        proof {
            assert(order.take(i + 1).drop_last() =~= order.take(i as int));
            assert(order.take(i + 1).last() == commands[i as int]@);
            assert(lines.take(i + 1).drop_last() =~= lines.take(i as int));
            assert(lines.take(i + 1).last() == line@);
        }
        let printed = sh.println(line.as_str());
        if printed.is_err() {
            proof {
                assert(before.printed(lines[i as int], *sh, printed));
                assert(helped(*old(sh), order, i as int, *sh, printed));
            }
            return printed;
        }
        proof {
            assert(before.printed(lines.take(i + 1).last(), *sh, printed));
            assert(printed_well(before, lines.take(i + 1).last(), *sh));
            assert(lines.take(i + 1).drop_last() == lines.take(i as int));
            assert(printed_lines(*old(sh), lines.take(i + 1).drop_last(), before));
            assert(lines.take(i + 1).len() == i + 1);
            lemma_printed_more(*old(sh), lines.take(i + 1), before, *sh);
            if old(sh).interface() is Dummy {
                assert(sh.interface().sink() =~= old(sh).interface().sink() + help_bytes(
                    order.take(i + 1),
                ));
            }
        }
        i += 1;
    }
    proof {
        assert(order.take(commands.len() as int) =~= order);
        assert(lines.take(commands.len() as int) =~= lines);
        assert(helped(*old(sh), order, order.len() as int, *sh, Ok::<(), Error>(())));
    }
    Ok(())
}

/// The builtin `downgrade`: replaces the line editor by `plain`.
pub fn downgrade<C>(sh: &mut Shell<C>, args: Vec<String>, plain: Interface) -> (r: Result<
    (),
    Error,
>)
    ensures
        r is Ok,
        final(sh).commands() == old(sh).commands(),
        if old(sh).interface() is Fancy {
            final(sh).interface() == plain
        } else {
            old(sh).shown(crate::shell::already_downgraded_text(), *final(sh))
        },
{
    sh.downgrade(plain);
    Ok(())
}

/// The bytes of shellcode that was given in base 16, if `hex` is set, or in
/// base64.
pub open spec fn shellcode_of(hex: bool, text: Seq<char>) -> Option<Seq<u8>> {
    if hex {
        unhexed(text)
    } else {
        base64_decoded(text)
    }
}

/// Decodes the shellcode that was given to `jit`: in base 16 as `\x41\x42`
/// if `hex` is set, else in base64.
pub fn decode_shellcode(hex: bool, text: &str) -> (r: Result<Vec<u8>, Error>)
    ensures
        match r {
            Ok(bytes) => shellcode_of(hex, text@) == Some(bytes@),
            Err(_) => shellcode_of(hex, text@) is None,
        },
{
    if hex {
        unhexify(text)
    } else {
        match decode(text) {
            Some(bytes) => Ok(bytes),
            None => Err(Error::other("invalid base64")),
        }
    }
}

} // verus!
