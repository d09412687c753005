use st_zfs_send_recv::error::ZfsBackupError;
use st_zfs_send_recv::remote::{
    check_local_root, require_remote_privileges, sudo_check_command, uid_check_command,
    RemoteAccess,
};

#[test]
fn test_ssh_session_creation() {
    // A session needs a reachable SSH host; what can be checked without one
    // is the state kept beside it.
    let access = RemoteAccess::new("backup.example.com");
    assert_eq!(access.host(), "backup.example.com");
    assert!(!access.uses_sudo());
}

#[test]
fn root_user_is_granted_without_sudo() {
    let mut access = RemoteAccess::new("h");
    assert_eq!(access.after_uid_check(true, "0\n"), Some(true));
    assert!(!access.uses_sudo());
}

#[test]
fn non_root_user_with_sudo_is_granted_through_sudo() {
    let mut access = RemoteAccess::new("h");
    assert_eq!(access.after_uid_check(true, "1000\n"), None);
    assert!(access.after_sudo_check(true));
    assert!(access.uses_sudo());
}

#[test]
fn non_root_user_without_sudo_is_refused() {
    let mut access = RemoteAccess::new("h");
    assert_eq!(access.after_uid_check(true, "1000\n"), None);
    assert!(!access.after_sudo_check(false));
    assert!(!access.uses_sudo());
    assert_eq!(
        require_remote_privileges(false, "h"),
        Err(ZfsBackupError::SshError(
            "Remote user on h is not root and sudo is not available".to_string()
        ))
    );
    assert_eq!(require_remote_privileges(true, "h"), Ok(()));
}

#[test]
fn privilege_commands() {
    let c = uid_check_command();
    assert_eq!(c.program, "id");
    assert_eq!(c.args, vec!["-u"]);
    let c = sudo_check_command();
    assert_eq!(c.program, "sudo");
    assert_eq!(c.args, vec!["-n", "true"]);
}

#[test]
fn local_root_is_required() {
    assert_eq!(check_local_root(0), Ok(()));
    assert_eq!(
        check_local_root(1000),
        Err(ZfsBackupError::BackupFailed(
            "This tool requires root privileges".to_string()
        ))
    );
}

#[test]
fn failed_uid_check_leads_to_the_sudo_check() {
    let mut access = RemoteAccess::new("h");
    assert_eq!(access.after_uid_check(false, "0\n"), None);
    assert_eq!(access.after_uid_check(true, "10\n"), None);
}

#[test]
fn zfs_runs_through_sudo_once_sudo_is_used() {
    let mut access = RemoteAccess::new("h");
    let args = vec!["list".to_string(), "-H".to_string()];
    let c = access.zfs_command(&args);
    assert_eq!(c.program, "zfs");
    assert_eq!(c.args, vec!["list", "-H"]);
    assert_eq!(access.after_uid_check(true, "1000"), None);
    assert!(access.after_sudo_check(true));
    let c = access.zfs_command(&args);
    assert_eq!(c.program, "sudo");
    assert_eq!(c.args, vec!["zfs", "list", "-H"]);
}
