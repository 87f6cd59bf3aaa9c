//! What the builtin commands decide from their arguments, before they touch
//! the system.

use vstd::prelude::*;
use vstd::string::StringExecFns;
use crate::busybox::{
    digits, filename_from_uri, filename_of, hex_groups, hex_pair, hex_value, is_wrapping,
    push_decimal, unhexed,
};
use crate::errors::Error;
use crate::text::{push_char, views};

verus! {

/// What `mount` mounts and where: with two arguments the first is the
/// source and the second the target; a single argument is the target, and
/// there is no source.
pub fn mount_args(first: String, second: Option<String>) -> (r: (Option<String>, String))
    ensures
        r == match second {
            Some(dest) => (Some(first), dest),
            None => (None::<String>, first),
        },
{
    match second {
        Some(dest) => (Some(first), dest),
        None => (None, first),
    }
}

/// What `tar` was asked to do.
#[derive(Debug, PartialEq, Eq)]
pub enum TarPlan {
    /// Unpack the archive into this directory.
    Extract(String),
    /// Pack these paths into the archive.
    Create(Vec<String>),
    /// Neither.
    Nothing,
}

/// What can be wrong with the paths given to `tar`.
#[derive(Clone, Copy, Debug, PartialEq, Eq)]
pub enum TarError {
    /// More than one directory to unpack into.
    TooManyPaths,
    /// Nothing to pack.
    PathsRequired,
}

/// The mathematical content of a [`TarPlan`].
pub enum TarPlanView {
    Extract(Seq<char>),
    Create(Seq<Seq<char>>),
    Nothing,
}

impl View for TarPlan {
    type V = TarPlanView;

    open spec fn view(&self) -> TarPlanView {
        match self {
            TarPlan::Extract(dest) => TarPlanView::Extract(dest@),
            TarPlan::Create(paths) => TarPlanView::Create(views(paths@)),
            TarPlan::Nothing => TarPlanView::Nothing,
        }
    }
}

/// What `tar` does with its flags and paths. Extracting wins over creating.
/// An archive is unpacked into the one path given, or into `.` if there is
/// none; to pack, at least one path is needed.
pub open spec fn tar_planned(extract: bool, create: bool, paths: Seq<Seq<char>>) -> Result<
    TarPlanView,
    TarError,
> {
    if extract {
        if paths.len() == 0 {
            Ok(TarPlanView::Extract("."@))
        } else if paths.len() == 1 {
            Ok(TarPlanView::Extract(paths[0]))
        } else {
            Err(TarError::TooManyPaths)
        }
    } else if create {
        if paths.len() == 0 {
            Err(TarError::PathsRequired)
        } else {
            Ok(TarPlanView::Create(paths))
        }
    } else {
        Ok(TarPlanView::Nothing)
    }
}

/// Decides what `tar` does with its flags and paths.
pub fn tar_plan(extract: bool, create: bool, paths: Vec<String>) -> (r: Result<TarPlan, TarError>)
    ensures
        match r {
            Ok(plan) => tar_planned(extract, create, views(paths@)) == Ok::<TarPlanView, TarError>(
                plan@,
            ),
            Err(e) => tar_planned(extract, create, views(paths@)) == Err::<TarPlanView, TarError>(
                e,
            ),
        },
{
    if extract {
        if paths.len() == 0 {
            Ok(TarPlan::Extract(String::from_str(".")))
        } else if paths.len() == 1 {
            Ok(TarPlan::Extract(paths[0].clone()))
        } else {
            Err(TarError::TooManyPaths)
        }
    } else if create {
        if paths.len() == 0 {
            Err(TarError::PathsRequired)
        } else {
            Ok(TarPlan::Create(paths))
        }
    } else {
        Ok(TarPlan::Nothing)
    }
}

impl TarError {
    /// The words for the error.
    pub fn message(self) -> (r: &'static str)
        ensures
            r@ == match self {
                TarError::TooManyPaths => "too many paths"@,
                TarError::PathsRequired => "paths is required with create"@,
            },
    {
        match self {
            TarError::TooManyPaths => "too many paths",
            TarError::PathsRequired => "paths is required with create",
        }
    }
}

/// Where `curl` stores what it fetched: in the file that was asked for;
/// else, if the remote name was asked for, under the name that the path of
/// the URL gives; else nowhere, and it is printed.
pub fn download_name(output: Option<String>, remote_name: bool, path: &str) -> (r: Option<String>)
    ensures
        match output {
            Some(name) => r == Some(name),
            None => if remote_name {
                r matches Some(name) && name@ == filename_of(path@)
            } else {
                r is None
            },
        },
{
    match output {
        Some(name) => Some(name),
        None => if remote_name {
            Some(filename_from_uri(path))
        } else {
            None
        },
    }
}

/// What `exec` runs: the program and its arguments, which are what follows
/// the name of the command; nothing if no program was given.
pub fn exec_plan(args: Vec<String>) -> (r: Option<(String, Vec<String>)>)
    ensures
        match r {
            Some((prog, rest)) => args.len() >= 2 && prog == args[1] && rest@ == args@.skip(2),
            None => args.len() < 2,
        },
{
    if args.len() < 2 {
        return None;
    }
    let mut args = args;
    let ghost all = args@;
    let _ = args.remove(0);
    let prog = args.remove(0);
    assert(args@ =~= all.skip(2));
    Some((prog, args))
}

/// The paths that `ls` lists: those given, or `.` if none was.
pub fn ls_paths(paths: Vec<String>) -> (r: Vec<String>)
    ensures
        views(r@) == if paths.len() == 0 {
            seq!["."@]
        } else {
            views(paths@)
        },
{
    if paths.len() == 0 {
        let mut out = Vec::new();
        out.push(String::from_str("."));
        assert(views(out@) =~= seq!["."@]);
        out
    } else {
        paths
    }
}

/// A set of capabilities of a process.
#[derive(Clone, Copy, Debug, PartialEq, Eq)]
pub enum CapSet {
    Effective,
    Bounding,
    Inheritable,
    Ambient,
    Permitted,
}

/// What `caps` does to a set of capabilities.
#[derive(Clone, Copy, Debug, PartialEq, Eq)]
pub enum CapAction {
    /// Clear the set.
    Clear,
    /// Drop the capabilities that were named.
    Drop,
    /// Raise the capabilities that were named.
    Raise,
    /// Make the set the capabilities that were named.
    Assign,
    /// Show the set.
    Read,
}

/// The flags of `caps` that choose the set.
#[derive(Clone, Copy, Debug, PartialEq, Eq)]
pub struct CapSetFlags {
    pub effective: bool,
    pub bounding: bool,
    pub inheritable: bool,
    pub ambient: bool,
}

/// The flags of `caps` that choose what is done.
#[derive(Clone, Copy, Debug, PartialEq, Eq)]
pub struct CapActionFlags {
    pub clear: bool,
    pub drop: bool,
    pub raise: bool,
    pub set: bool,
}

/// The set that `caps` works on: the first of effective, bounding,
/// inheritable and ambient that was asked for, else the permitted set.
pub fn cap_set(flags: CapSetFlags) -> (r: CapSet)
    ensures
        r == if flags.effective {
            CapSet::Effective
        } else if flags.bounding {
            CapSet::Bounding
        } else if flags.inheritable {
            CapSet::Inheritable
        } else if flags.ambient {
            CapSet::Ambient
        } else {
            CapSet::Permitted
        },
{
    if flags.effective {
        CapSet::Effective
    } else if flags.bounding {
        CapSet::Bounding
    } else if flags.inheritable {
        CapSet::Inheritable
    } else if flags.ambient {
        CapSet::Ambient
    } else {
        CapSet::Permitted
    }
}

/// What `caps` does: the first of clear, drop, raise and set that was asked
/// for, else it shows the set.
pub fn cap_action(flags: CapActionFlags) -> (r: CapAction)
    ensures
        r == if flags.clear {
            CapAction::Clear
        } else if flags.drop {
            CapAction::Drop
        } else if flags.raise {
            CapAction::Raise
        } else if flags.set {
            CapAction::Assign
        } else {
            CapAction::Read
        },
{
    if flags.clear {
        CapAction::Clear
    } else if flags.drop {
        CapAction::Drop
    } else if flags.raise {
        CapAction::Raise
    } else if flags.set {
        CapAction::Assign
    } else {
        CapAction::Read
    }
}

/// A list of numbers as it is shown: in square brackets, with a comma and
/// a space between the numbers.
pub open spec fn number_list(numbers: Seq<u32>) -> Seq<char> {
    "["@ + list_items(numbers) + "]"@
}

/// The numbers of a list with a comma and a space between them.
pub open spec fn list_items(numbers: Seq<u32>) -> Seq<char>
    decreases numbers.len(),
{
    if numbers.len() == 0 {
        Seq::empty()
    } else if numbers.len() == 1 {
        digits(numbers[0] as nat)
    } else {
        list_items(numbers.drop_last()) + ", "@ + digits(numbers.last() as nat)
    }
}

/// One field of the line that `id` prints: the name, an equals sign and the
/// number.
pub open spec fn id_field(name: Seq<char>, value: u32) -> Seq<char> {
    name + "="@ + digits(value as nat)
}

/// The user and group numbers of a process.
#[derive(Debug, PartialEq, Eq)]
pub struct Identity {
    /// The real user.
    pub ruid: u32,
    /// The effective user.
    pub euid: u32,
    /// The saved user, where the system tells it.
    pub suid: Option<u32>,
    /// The real group.
    pub rgid: u32,
    /// The effective group.
    pub egid: u32,
    /// The saved group, where the system tells it.
    pub sgid: Option<u32>,
    /// The supplementary groups.
    pub groups: Vec<u32>,
}

impl Identity {
    /// The line that `id` prints, without its end.
    pub open spec fn line(self) -> Seq<char> {
        id_field("uid"@, self.ruid) + " "@ + id_field("euid"@, self.euid) + (match self.suid {
            Some(suid) => " "@ + id_field("suid"@, suid),
            None => Seq::empty(),
        }) + " "@ + id_field("gid"@, self.rgid) + " "@ + id_field("egid"@, self.egid) + (match self.sgid {
            Some(sgid) => " "@ + id_field("sgid"@, sgid),
            None => Seq::empty(),
        }) + " groups="@ + number_list(self.groups@)
    }

    /// Formats the line that `id` prints.
    pub fn format(&self) -> (out: String)
        ensures
            out@ == self.line(),
    {
        let mut out = String::new();
        push_field(&mut out, "uid", self.ruid);
        out.append(" ");
        push_field(&mut out, "euid", self.euid);
        match self.suid {
            Some(suid) => {
                out.append(" ");
                push_field(&mut out, "suid", suid);
            },
            None => {},
        }
        out.append(" ");
        push_field(&mut out, "gid", self.rgid);
        out.append(" ");
        push_field(&mut out, "egid", self.egid);
        match self.sgid {
            Some(sgid) => {
                out.append(" ");
                push_field(&mut out, "sgid", sgid);
            },
            None => {},
        }
        out.append(" groups=");
        push_number_list(&mut out, &self.groups);
        assert(out@ =~= self.line());
        out
    }
}

fn push_field(out: &mut String, name: &str, value: u32)
    ensures
        final(out)@ == old(out)@ + id_field(name@, value),
{
    let ghost start = out@;
    out.append(name);
    out.append("=");
    push_decimal(out, value as u64);
    assert(out@ =~= start + id_field(name@, value));
}

/// Appends a list of numbers in square brackets.
pub fn push_number_list(out: &mut String, numbers: &Vec<u32>)
    ensures
        final(out)@ == old(out)@ + number_list(numbers@),
{
    let ghost start = out@;
    out.append("[");
    let mut i: usize = 0;
    assert(numbers@.take(0) =~= Seq::<u32>::empty());
    assert(out@ =~= start + "["@ + list_items(numbers@.take(0)));
    while i < numbers.len()
        invariant
            i <= numbers.len(),
            out@ == start + "["@ + list_items(numbers@.take(i as int)),
        decreases numbers.len() - i,
    {
        let ghost before = out@;
        let ghost head = numbers@.take(i as int);
        let ghost next = numbers@.take(i + 1);
        proof {
            assert(next.drop_last() =~= head);
            assert(next.last() == numbers[i as int]);
        }
        if i > 0 {
            out.append(", ");
        }
        push_decimal(out, numbers[i] as u64);
        proof {
            if i > 0 {
                assert(out@ =~= start + "["@ + (list_items(head) + ", "@ + digits(
                    numbers[i as int] as nat,
                )));
            } else {
                assert(list_items(head) =~= Seq::<char>::empty());
                assert(out@ =~= start + "["@ + digits(numbers[i as int] as nat));
            }
        }
        i += 1;
    }
    proof {
        assert(numbers@.take(numbers.len() as int) =~= numbers@);
    }
    out.append("]");
    assert(out@ =~= start + number_list(numbers@));
}

/// The character for a digit in base 16, in capitals.
pub open spec fn hex_char(d: int) -> char {
    if d < 10 {
        crate::busybox::digit_char(d)
    } else if d == 10 {
        'A'
    } else if d == 11 {
        'B'
    } else if d == 12 {
        'C'
    } else if d == 13 {
        'D'
    } else if d == 14 {
        'E'
    } else {
        'F'
    }
}

/// Shellcode as it is shown: for each byte a backslash, an `x` and two
/// digits in base 16.
pub open spec fn hexed(bytes: Seq<u8>) -> Seq<char>
    decreases bytes.len(),
{
    if bytes.len() == 0 {
        Seq::empty()
    } else {
        hexed(bytes.drop_last()).push('\\').push('x').push(hex_char(bytes.last() as int / 16)).push(
            hex_char(bytes.last() as int % 16),
        )
    }
}

fn hex_digit_char(d: u8) -> (c: char)
    requires
        d < 16,
    ensures
        c == hex_char(d as int),
{
    if d == 0 {
        '0'
    } else if d == 1 {
        '1'
    } else if d == 2 {
        '2'
    } else if d == 3 {
        '3'
    } else if d == 4 {
        '4'
    } else if d == 5 {
        '5'
    } else if d == 6 {
        '6'
    } else if d == 7 {
        '7'
    } else if d == 8 {
        '8'
    } else if d == 9 {
        '9'
    } else if d == 10 {
        'A'
    } else if d == 11 {
        'B'
    } else if d == 12 {
        'C'
    } else if d == 13 {
        'D'
    } else if d == 14 {
        'E'
    } else {
        'F'
    }
}

/// Shows shellcode as `\x41\x42`, in the form that `unhexify` reads.
pub fn hexify(bytes: &[u8]) -> (out: String)
    ensures
        out@ == hexed(bytes@),
        unhexed(out@) == Some(bytes@),
{
    let mut out = String::new();
    let mut i: usize = 0;
    assert(bytes@.take(0) =~= Seq::<u8>::empty());
    while i < bytes.len()
        invariant
            i <= bytes.len(),
            out@ == hexed(bytes@.take(i as int)),
        decreases bytes.len() - i,
    {
        let b = bytes[i];
        proof {
            assert(bytes@.take(i + 1).drop_last() =~= bytes@.take(i as int));
            assert(bytes@.take(i + 1).last() == b);
        }
        push_char(&mut out, '\\');
        push_char(&mut out, 'x');
        push_char(&mut out, hex_digit_char(b / 16));
        push_char(&mut out, hex_digit_char(b % 16));
        i += 1;
    }
    assert(bytes@.take(bytes.len() as int) =~= bytes@);
    proof {
        lemma_unhexed_hexed(bytes@);
    }
    out
}

/// The shellcode that is shown without its backslashes: for each byte an `x`
/// and two digits in base 16.
pub open spec fn bare_hexed(bytes: Seq<u8>) -> Seq<char>
    decreases bytes.len(),
{
    if bytes.len() == 0 {
        Seq::empty()
    } else {
        bare_hexed(bytes.drop_last()).push('x').push(hex_char(bytes.last() as int / 16)).push(
            hex_char(bytes.last() as int % 16),
        )
    }
}

/// A digit in base 16 reads as its value.
pub proof fn lemma_hex_char_value(d: int)
    requires
        0 <= d < 16,
    ensures
        hex_value(hex_char(d)) == Some(d as u8),
        !is_wrapping(hex_char(d)),
        hex_char(d) != '+',
{
}

/// Dropping the backslashes from shellcode that is shown leaves the groups
/// of an `x` and two digits.
pub proof fn lemma_hexed_without_backslashes(bytes: Seq<u8>)
    ensures
        hexed(bytes).filter(|c: char| !is_wrapping(c)) == bare_hexed(bytes),
        bare_hexed(bytes).len() == 3 * bytes.len(),
    decreases bytes.len(),
{
    let keep = |c: char| !is_wrapping(c);
    if bytes.len() == 0 {
        assert(hexed(bytes).filter(keep) =~= Seq::<char>::empty());
    } else {
        let head = bytes.drop_last();
        let b = bytes.last();
        let high = hex_char(b as int / 16);
        let low = hex_char(b as int % 16);
        lemma_hexed_without_backslashes(head);
        lemma_hex_char_value(b as int / 16);
        lemma_hex_char_value(b as int % 16);
        let s0 = hexed(head);
        let s1 = s0.push('\\');
        let s2 = s1.push('x');
        let s3 = s2.push(high);
        s0.lemma_filter_push('\\', keep);
        s1.lemma_filter_push('x', keep);
        s2.lemma_filter_push(high, keep);
        s3.lemma_filter_push(low, keep);
    }
}

/// Shellcode that is shown as `\x41\x42` decodes to itself.
pub proof fn lemma_unhexed_hexed(bytes: Seq<u8>)
    ensures
        unhexed(hexed(bytes)) == Some(bytes),
{
    lemma_hexed_without_backslashes(bytes);
    lemma_groups_of_bare_hexed(bytes);
}

/// The groups of an `x` and two digits read as the bytes that they show.
pub proof fn lemma_groups_of_bare_hexed(bytes: Seq<u8>)
    ensures
        hex_groups(bare_hexed(bytes)) == Some(bytes),
    decreases bytes.len(),
{
    if bytes.len() > 0 {
        let head = bytes.drop_last();
        let b = bytes.last();
        lemma_groups_of_bare_hexed(head);
        lemma_hexed_without_backslashes(head);
        lemma_hexed_without_backslashes(bytes);
        lemma_hex_char_value(b as int / 16);
        lemma_hex_char_value(b as int % 16);
        let text = bare_hexed(bytes);
        let n = text.len() - 3;
        assert(text.take(n) =~= bare_hexed(head));
        assert(text[n] == 'x');
        assert(hex_pair(text[n + 1], text[n + 2]) == Some(b)) by {
            assert(b as int == (b as int / 16) * 16 + b as int % 16);
        }
        assert(head.push(b) =~= bytes);
    }
}

/// The error of a system call that did not return zero.
pub fn check(ret: i32) -> (r: Result<(), Error>)
    ensures
        r is Ok <==> ret == 0,
        r matches Err(e) ==> e.kind is Errno,
{
    if ret != 0 {
        Err(crate::errors::errno())
    } else {
        Ok(())
    }
}

} // verus!
