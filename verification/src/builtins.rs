//! The builtin commands by name, and which of them a platform offers.

use vstd::prelude::*;

verus! {

/// What the platform and the build offer. The values are fixed when the
/// program is built and handed to the library as plain flags.
#[derive(Clone, Copy, Debug, PartialEq, Eq)]
pub struct Capabilities {
    /// A POSIX system.
    pub unix: bool,
    /// A Linux system.
    pub linux: bool,
    /// Archive commands are built in.
    pub archives: bool,
    /// Network commands are built in.
    pub network: bool,
}

/// A builtin command.
#[derive(Clone, Copy, Debug, PartialEq, Eq)]
pub enum Builtin {
    /// `cat` (available everywhere).
    Cat,
    /// `cd` (available everywhere).
    Cd,
    /// `downgrade` (available everywhere).
    Downgrade,
    /// `echo` (available everywhere).
    Echo,
    /// `exec` (available everywhere).
    Exec,
    /// `grep` (available everywhere).
    Grep,
    /// `help` (available everywhere).
    Help,
    /// `ls` (available everywhere).
    Ls,
    /// `mkdir` (available everywhere).
    Mkdir,
    /// `pwd` (available everywhere).
    Pwd,
    /// `rm` (available everywhere).
    Rm,
    /// `chmod` (POSIX only).
    Chmod,
    /// `chown` (POSIX only).
    Chown,
    /// `chroot` (POSIX only).
    Chroot,
    /// `jit` (POSIX only).
    Jit,
    /// `id` (POSIX only).
    Id,
    /// `setgroups` (POSIX only).
    Setgroups,
    /// `setgid` (POSIX only).
    Setgid,
    /// `setuid` (POSIX only).
    Setuid,
    /// `seteuid` (POSIX only).
    Seteuid,
    /// `caps` (Linux only).
    Caps,
    /// `mount` (Linux only).
    Mount,
    /// `setresgid` (Linux only).
    Setresgid,
    /// `setresuid` (Linux only).
    Setresuid,
    /// `setreuid` (Linux only).
    Setreuid,
    /// `tar` (archive support).
    Tar,
    /// `curl` (network support).
    Curl,
    /// `revshell` (network support).
    Revshell,
    /// `ipcshell` (network support on POSIX).
    Ipcshell,
}

/// The number of builtin commands.
pub const BUILTINS: usize = 29;

impl Builtin {
    /// The name under which the builtin is registered.
    pub open spec fn spec_name(self) -> Seq<char> {
        match self {
            Builtin::Cat => "cat"@,
            Builtin::Cd => "cd"@,
            Builtin::Downgrade => "downgrade"@,
            Builtin::Echo => "echo"@,
            Builtin::Exec => "exec"@,
            Builtin::Grep => "grep"@,
            Builtin::Help => "help"@,
            Builtin::Ls => "ls"@,
            Builtin::Mkdir => "mkdir"@,
            Builtin::Pwd => "pwd"@,
            Builtin::Rm => "rm"@,
            Builtin::Chmod => "chmod"@,
            Builtin::Chown => "chown"@,
            Builtin::Chroot => "chroot"@,
            Builtin::Jit => "jit"@,
            Builtin::Id => "id"@,
            Builtin::Setgroups => "setgroups"@,
            Builtin::Setgid => "setgid"@,
            Builtin::Setuid => "setuid"@,
            Builtin::Seteuid => "seteuid"@,
            Builtin::Caps => "caps"@,
            Builtin::Mount => "mount"@,
            Builtin::Setresgid => "setresgid"@,
            Builtin::Setresuid => "setresuid"@,
            Builtin::Setreuid => "setreuid"@,
            Builtin::Tar => "tar"@,
            Builtin::Curl => "curl"@,
            Builtin::Revshell => "revshell"@,
            Builtin::Ipcshell => "ipcshell"@,
        }
    }

    /// The place of the builtin in the catalogue.
    pub open spec fn position(self) -> int {
        match self {
            Builtin::Cat => 0,
            Builtin::Cd => 1,
            Builtin::Downgrade => 2,
            Builtin::Echo => 3,
            Builtin::Exec => 4,
            Builtin::Grep => 5,
            Builtin::Help => 6,
            Builtin::Ls => 7,
            Builtin::Mkdir => 8,
            Builtin::Pwd => 9,
            Builtin::Rm => 10,
            Builtin::Chmod => 11,
            Builtin::Chown => 12,
            Builtin::Chroot => 13,
            Builtin::Jit => 14,
            Builtin::Id => 15,
            Builtin::Setgroups => 16,
            Builtin::Setgid => 17,
            Builtin::Setuid => 18,
            Builtin::Seteuid => 19,
            Builtin::Caps => 20,
            Builtin::Mount => 21,
            Builtin::Setresgid => 22,
            Builtin::Setresuid => 23,
            Builtin::Setreuid => 24,
            Builtin::Tar => 25,
            Builtin::Curl => 26,
            Builtin::Revshell => 27,
            Builtin::Ipcshell => 28,
        }
    }

    /// Whether a platform with these capabilities offers the builtin.
    pub open spec fn enabled(self, caps: Capabilities) -> bool {
        match self {
            Builtin::Cat | Builtin::Cd | Builtin::Downgrade | Builtin::Echo | Builtin::Exec | Builtin::Grep | Builtin::Help | Builtin::Ls | Builtin::Mkdir | Builtin::Pwd | Builtin::Rm => true,
            Builtin::Chmod | Builtin::Chown | Builtin::Chroot | Builtin::Jit | Builtin::Id | Builtin::Setgroups | Builtin::Setgid | Builtin::Setuid | Builtin::Seteuid => caps.unix,
            Builtin::Caps | Builtin::Mount | Builtin::Setresgid | Builtin::Setresuid | Builtin::Setreuid => caps.linux,
            Builtin::Tar => caps.archives,
            Builtin::Curl | Builtin::Revshell => caps.network,
            Builtin::Ipcshell => caps.network && caps.unix,
        }
    }

    /// The name under which the builtin is registered.
    pub fn name(self) -> (r: &'static str)
        ensures
            r@ == self.spec_name(),
    {
        match self {
            Builtin::Cat => "cat",
            Builtin::Cd => "cd",
            Builtin::Downgrade => "downgrade",
            Builtin::Echo => "echo",
            Builtin::Exec => "exec",
            Builtin::Grep => "grep",
            Builtin::Help => "help",
            Builtin::Ls => "ls",
            Builtin::Mkdir => "mkdir",
            Builtin::Pwd => "pwd",
            Builtin::Rm => "rm",
            Builtin::Chmod => "chmod",
            Builtin::Chown => "chown",
            Builtin::Chroot => "chroot",
            Builtin::Jit => "jit",
            Builtin::Id => "id",
            Builtin::Setgroups => "setgroups",
            Builtin::Setgid => "setgid",
            Builtin::Setuid => "setuid",
            Builtin::Seteuid => "seteuid",
            Builtin::Caps => "caps",
            Builtin::Mount => "mount",
            Builtin::Setresgid => "setresgid",
            Builtin::Setresuid => "setresuid",
            Builtin::Setreuid => "setreuid",
            Builtin::Tar => "tar",
            Builtin::Curl => "curl",
            Builtin::Revshell => "revshell",
            Builtin::Ipcshell => "ipcshell",
        }
    }

    /// Whether a platform with these capabilities offers the builtin.
    pub fn is_enabled(self, caps: Capabilities) -> (r: bool)
        ensures
            r == self.enabled(caps),
    {
        match self {
            Builtin::Cat | Builtin::Cd | Builtin::Downgrade | Builtin::Echo | Builtin::Exec | Builtin::Grep | Builtin::Help | Builtin::Ls | Builtin::Mkdir | Builtin::Pwd | Builtin::Rm => true,
            Builtin::Chmod | Builtin::Chown | Builtin::Chroot | Builtin::Jit | Builtin::Id | Builtin::Setgroups | Builtin::Setgid | Builtin::Setuid | Builtin::Seteuid => caps.unix,
            Builtin::Caps | Builtin::Mount | Builtin::Setresgid | Builtin::Setresuid | Builtin::Setreuid => caps.linux,
            Builtin::Tar => caps.archives,
            Builtin::Curl | Builtin::Revshell => caps.network,
            Builtin::Ipcshell => caps.network && caps.unix,
        }
    }
}

/// Every builtin, in the order in which a toolbox registers them.
pub open spec fn catalogue() -> Seq<Builtin> {
    seq![
        Builtin::Cat,
        Builtin::Cd,
        Builtin::Downgrade,
        Builtin::Echo,
        Builtin::Exec,
        Builtin::Grep,
        Builtin::Help,
        Builtin::Ls,
        Builtin::Mkdir,
        Builtin::Pwd,
        Builtin::Rm,
        Builtin::Chmod,
        Builtin::Chown,
        Builtin::Chroot,
        Builtin::Jit,
        Builtin::Id,
        Builtin::Setgroups,
        Builtin::Setgid,
        Builtin::Setuid,
        Builtin::Seteuid,
        Builtin::Caps,
        Builtin::Mount,
        Builtin::Setresgid,
        Builtin::Setresuid,
        Builtin::Setreuid,
        Builtin::Tar,
        Builtin::Curl,
        Builtin::Revshell,
        Builtin::Ipcshell,
    ]
}

/// The builtins that a platform with these capabilities offers, in the order
/// of the catalogue.
pub open spec fn offered(caps: Capabilities) -> Seq<Builtin> {
    catalogue().filter(|b: Builtin| b.enabled(caps))
}

/// Every builtin stands in the catalogue, at its position.
pub proof fn lemma_catalogue_is_complete(b: Builtin)
    ensures
        0 <= b.position() < catalogue().len(),
        catalogue()[b.position()] == b,
        catalogue().len() == BUILTINS,
{
}

/// No builtin stands in the catalogue twice.
pub proof fn lemma_catalogue_has_no_duplicates()
    ensures
        catalogue().no_duplicates(),
{
    assert forall|i: int, j: int|
        0 <= i < catalogue().len() && 0 <= j < catalogue().len() && i != j implies catalogue()[i]
        != catalogue()[j] by {
        assert(catalogue()[i].position() == i);
        assert(catalogue()[j].position() == j);
    }
}

/// Two builtins never share a name.
pub proof fn lemma_names_are_distinct(a: Builtin, b: Builtin)
    requires
        a != b,
    ensures
        a.spec_name() != b.spec_name(),
{
    reveal_strlit("cat");
    reveal_strlit("cd");
    reveal_strlit("downgrade");
    reveal_strlit("echo");
    reveal_strlit("exec");
    reveal_strlit("grep");
    reveal_strlit("help");
    reveal_strlit("ls");
    reveal_strlit("mkdir");
    reveal_strlit("pwd");
    reveal_strlit("rm");
    reveal_strlit("chmod");
    reveal_strlit("chown");
    reveal_strlit("chroot");
    reveal_strlit("jit");
    reveal_strlit("id");
    reveal_strlit("setgroups");
    reveal_strlit("setgid");
    reveal_strlit("setuid");
    reveal_strlit("seteuid");
    reveal_strlit("caps");
    reveal_strlit("mount");
    reveal_strlit("setresgid");
    reveal_strlit("setresuid");
    reveal_strlit("setreuid");
    reveal_strlit("tar");
    reveal_strlit("curl");
    reveal_strlit("revshell");
    reveal_strlit("ipcshell");
    let x = a.spec_name();
    let y = b.spec_name();
    if x.len() == y.len() {
        assert(x[0] != y[0] || x[1] != y[1] || x[2] != y[2] || x[3] != y[3] || x[6] != y[6]);
    }
}

/// Every builtin, as a list.
pub fn all_builtins() -> (all: Vec<Builtin>)
    ensures
        all@ == catalogue(),
{
    let mut all: Vec<Builtin> = Vec::new();
    all.push(Builtin::Cat);
    all.push(Builtin::Cd);
    all.push(Builtin::Downgrade);
    all.push(Builtin::Echo);
    all.push(Builtin::Exec);
    all.push(Builtin::Grep);
    all.push(Builtin::Help);
    all.push(Builtin::Ls);
    all.push(Builtin::Mkdir);
    all.push(Builtin::Pwd);
    all.push(Builtin::Rm);
    all.push(Builtin::Chmod);
    all.push(Builtin::Chown);
    all.push(Builtin::Chroot);
    all.push(Builtin::Jit);
    all.push(Builtin::Id);
    all.push(Builtin::Setgroups);
    all.push(Builtin::Setgid);
    all.push(Builtin::Setuid);
    all.push(Builtin::Seteuid);
    all.push(Builtin::Caps);
    all.push(Builtin::Mount);
    all.push(Builtin::Setresgid);
    all.push(Builtin::Setresuid);
    all.push(Builtin::Setreuid);
    all.push(Builtin::Tar);
    all.push(Builtin::Curl);
    all.push(Builtin::Revshell);
    all.push(Builtin::Ipcshell);
    assert(all@ =~= catalogue());
    all
}

/// The builtins that a platform with these capabilities offers.
pub fn builtins(caps: Capabilities) -> (out: Vec<Builtin>)
    ensures
        out@ == offered(caps),
        forall|b: Builtin| out@.contains(b) <==> b.enabled(caps),
        out@.no_duplicates(),
{
    let all = all_builtins();
    let ghost wanted = |b: Builtin| b.enabled(caps);
    let mut out: Vec<Builtin> = Vec::new();
    let mut i: usize = 0;
    assert(all@.take(0).filter(wanted) =~= Seq::<Builtin>::empty());
    while i < all.len()
        invariant
            i <= all.len(),
            all@ == catalogue(),
            wanted == (|b: Builtin| b.enabled(caps)),
            out@ == all@.take(i as int).filter(wanted),
            forall|k: int| 0 <= k < out.len() ==> (#[trigger] out[k]).position() < i,
            out@.no_duplicates(),
        decreases all.len() - i,
    {
        let b = all[i];
        proof {
            assert(all@.take(i + 1) =~= all@.take(i as int).push(b));
            all@.take(i as int).lemma_filter_push(b, wanted);
            assert(b.position() == i);
        }
        if b.is_enabled(caps) {
            out.push(b);
        }
        i += 1;
    }
    proof {
        assert(all@.take(all.len() as int) =~= all@);
        lemma_offered(caps);
    }
    out
}

/// What a platform offers is what is enabled on it.
pub proof fn lemma_offered(caps: Capabilities)
    ensures
        forall|b: Builtin| offered(caps).contains(b) <==> b.enabled(caps),
{
    let wanted = |b: Builtin| b.enabled(caps);
    broadcast use vstd::seq_lib::group_filter_ensures;

    assert forall|b: Builtin| offered(caps).contains(b) <==> b.enabled(caps) by {
        if b.enabled(caps) {
            lemma_catalogue_is_complete(b);
            assert(catalogue().contains(b));
            assert(wanted(b));
        }
        if offered(caps).contains(b) {
            let i = choose|i: int| 0 <= i < offered(caps).len() && offered(caps)[i] == b;
            assert(wanted(offered(caps)[i]));
        }
    }
}

} // verus!
