//! Access rights on the source host and on this machine.

use vstd::prelude::*;
use crate::error::ZfsBackupError;
use crate::text::{concat, trim_text, trimmed, views};

verus! {

/// What is known of the account used on a source host: the host, and
/// whether privileged commands there go through `sudo`.
pub struct RemoteAccess {
    host: String,
    use_sudo: bool,
}

impl View for RemoteAccess {
    type V = (Seq<char>, bool);

    closed spec fn view(&self) -> (Seq<char>, bool) {
        (self.host@, self.use_sudo)
    }
}

/// A command to run on the source host.
#[derive(Debug, Clone)]
pub struct RemoteCommand {
    pub program: String,
    pub args: Vec<String>,
}

/// The command that prints the remote user's numeric id (`id -u`).
pub fn uid_check_command() -> (res: RemoteCommand)
    ensures
        res.program@ == "id"@,
        views(res.args@) == seq!["-u"@],
{
    let args = vec![String::from_str("-u")];
    assert(views(args@) == seq!["-u"@]);
    RemoteCommand { program: String::from_str("id"), args }
}

/// The command that succeeds when the remote user may run commands through
/// `sudo` without being asked for a password (`sudo -n true`).
pub fn sudo_check_command() -> (res: RemoteCommand)
    ensures
        res.program@ == "sudo"@,
        views(res.args@) == seq!["-n"@, "true"@],
{
    let args = vec![String::from_str("-n"), String::from_str("true")];
    assert(views(args@) == seq!["-n"@, "true"@]);
    RemoteCommand { program: String::from_str("sudo"), args }
}

/// Whether the outcome of `uid_check_command` shows a root user: it
/// succeeded and printed the id `0`.
pub open spec fn shows_root(success: bool, output: Seq<char>) -> bool {
    success && trimmed(output) == "0"@
}

/// The verdict after the user-id check: granted when the user is root,
/// undecided (`None`) when a `sudo` check must follow.
pub open spec fn uid_verdict(success: bool, output: Seq<char>) -> Option<bool> {
    if shows_root(success, output) {
        Some(true)
    } else {
        None
    }
}

/// The command that runs `zfs` with `args` on the host: through `sudo` when
/// privileged commands go through it.
pub open spec fn zfs_command_of(use_sudo: bool, args: Seq<Seq<char>>) -> (Seq<char>, Seq<Seq<char>>) {
    if use_sudo {
        ("sudo"@, seq!["zfs"@] + args)
    } else {
        ("zfs"@, args)
    }
}

impl RemoteAccess {
    /// The access to `host`, not yet known to need `sudo`.
    pub fn new(host: &str) -> (res: RemoteAccess)
        ensures
            res@ == (host@, false),
    {
        RemoteAccess { host: String::from_str(host), use_sudo: false }
    }

    /// The host.
    pub fn host(&self) -> (res: &str)
        ensures
            res@ == self@.0,
    {
        self.host.as_str()
    }

    /// Whether privileged commands go through `sudo`.
    pub fn uses_sudo(&self) -> (res: bool)
        ensures
            res == self@.1,
    {
        self.use_sudo
    }

    /// Takes in the outcome of `uid_check_command`: whether it succeeded,
    /// and what it printed. A root user is granted at once; otherwise the
    /// `sudo` check decides.
    pub fn after_uid_check(&mut self, success: bool, output: &str) -> (res: Option<bool>)
        ensures
            res == uid_verdict(success, output@),
            final(self)@ == old(self)@,
    {
        let t = trim_text(output);
        let zero = String::from_str("0");
        if success && t == zero {
            Some(true)
        } else {
            None
        }
    }

    /// Takes in the outcome of `sudo_check_command`: `sudo_works` when it
    /// ran and succeeded. Then privileged commands go through `sudo`, and
    /// access is granted; otherwise it is refused.
    pub fn after_sudo_check(&mut self, sudo_works: bool) -> (res: bool)
        ensures
            res == sudo_works,
            final(self)@ == (old(self)@.0, old(self)@.1 || sudo_works),
    {
        if sudo_works {
            self.use_sudo = true;
            true
        } else {
            false
        }
    }

    /// The command that runs `zfs` with `args` on the host, through `sudo`
    /// when that is how privileged commands run there.
    pub fn zfs_command(&self, args: &Vec<String>) -> (res: RemoteCommand)
        ensures
            (res.program@, views(res.args@)) == zfs_command_of(self@.1, views(args@)),
    {
        if self.use_sudo {
            let mut all = vec![String::from_str("zfs")];
            let mut i: usize = 0;
            while i < args.len()
                invariant
                    i <= args@.len(),
                    views(all@) == seq!["zfs"@] + views(args@).take(i as int),
                decreases args@.len() - i,
            {
                let ghost before = all@;
                all.push(args[i].clone());
                assert(views(all@) =~= views(before).push(args@[i as int]@));
                assert(views(args@).take(i + 1) == views(args@).take(i as int).push(args@[i as int]@));
                assert(seq!["zfs"@] + views(args@).take(i + 1) =~= (seq!["zfs"@] + views(args@).take(
                    i as int,
                )).push(args@[i as int]@));
                i = i + 1;
            }
            assert(views(args@).take(args@.len() as int) == views(args@));
            RemoteCommand { program: String::from_str("sudo"), args: all }
        } else {
            let mut all: Vec<String> = Vec::new();
            let mut i: usize = 0;
            while i < args.len()
                invariant
                    i <= args@.len(),
                    views(all@) == views(args@).take(i as int),
                decreases args@.len() - i,
            {
                all.push(args[i].clone());
                assert(views(args@).take(i + 1) == views(args@).take(i as int).push(args@[i as int]@));
                i = i + 1;
            }
            assert(views(args@).take(args@.len() as int) == views(args@));
            RemoteCommand { program: String::from_str("zfs"), args: all }
        }
    }
}

/// The privilege check as a whole: a fresh access to a host is granted
/// exactly when the user is root or may use `sudo`, and it goes through
/// `sudo` exactly when the user is not root and may use it.
pub proof fn law_privilege_check(host: Seq<char>, success: bool, output: Seq<char>, sudo_works: bool)
    ensures
        ({
            let root = shows_root(success, output);
            let first = uid_verdict(success, output);
            let granted = match first {
                Some(g) => g,
                None => sudo_works,
            };
            let via_sudo = first is None && sudo_works;
            &&& granted <==> (root || sudo_works)
            &&& via_sudo <==> (!root && sudo_works)
        }),
{
}

/// Refuses to go on when the remote user is neither root nor a `sudo` user.
pub fn require_remote_privileges(granted: bool, host: &str) -> (res: Result<(), ZfsBackupError>)
    ensures
        granted ==> res is Ok,
        !granted ==> (res matches Err(ZfsBackupError::SshError(m)) && m@ == "Remote user on "@
            + host@ + " is not root and sudo is not available"@),
{
    if granted {
        Ok(())
    } else {
        let a = concat("Remote user on ", host);
        Err(ZfsBackupError::SshError(concat(a.as_str(), " is not root and sudo is not available")))
    }
}

/// Refuses to go on unless this process runs as root (effective user id 0).
pub fn check_local_root(euid: u32) -> (res: Result<(), ZfsBackupError>)
    ensures
        euid == 0 ==> res is Ok,
        euid != 0 ==> (res matches Err(ZfsBackupError::BackupFailed(m)) && m@
            == "This tool requires root privileges"@),
{
    if euid == 0 {
        Ok(())
    } else {
        Err(ZfsBackupError::BackupFailed(String::from_str("This tool requires root privileges")))
    }
}

} // verus!
