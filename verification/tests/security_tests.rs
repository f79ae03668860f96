use ai_cli::security::{
    command_clearance, commit_command, custom_text, is_confirmed, read_approval, wants_trust,
    ApprovalDecision, ApprovalOption, Clearance, SecurityLevel, SecurityManager,
};

#[test]
fn test_security_manager_creation() {
    let manager = SecurityManager::new();
    assert_eq!(manager.current_level, SecurityLevel::Untrusted);
    assert!(manager.trusted_folders.is_empty());
}

#[test]
fn security_test_dangerous_command_detection() {
    assert!(SecurityManager::is_dangerous_command("rm -rf /"));
    assert!(SecurityManager::is_dangerous_command("sudo rm -rf /home"));
    assert!(!SecurityManager::is_dangerous_command("git status"));
    assert!(!SecurityManager::is_dangerous_command("ls -la"));
}

#[test]
fn security_test_warning_command_detection() {
    assert!(SecurityManager::needs_warning("rm file.txt"));
    assert!(SecurityManager::needs_warning("git reset --hard"));
    assert!(!SecurityManager::needs_warning("git status"));
    assert!(!SecurityManager::needs_warning("echo hello"));
}

#[test]
fn test_security_manager() {
    let manager = SecurityManager::new();
    assert_eq!(manager.current_level, SecurityLevel::Untrusted);
    assert!(manager.trusted_folders.is_empty());
}

#[test]
fn integration_test_test_dangerous_command_detection() {
    assert!(SecurityManager::is_dangerous_command("rm -rf /"));
    assert!(SecurityManager::is_dangerous_command("sudo rm -rf /home"));
    assert!(!SecurityManager::is_dangerous_command("git status"));
    assert!(!SecurityManager::is_dangerous_command("ls -la"));
}

#[test]
fn integration_test_test_warning_command_detection() {
    assert!(SecurityManager::needs_warning("rm file.txt"));
    assert!(SecurityManager::needs_warning("git reset --hard"));
    assert!(!SecurityManager::needs_warning("git status"));
    assert!(!SecurityManager::needs_warning("echo hello"));
}

#[test]
fn commands_are_read_in_lower_case() {
    assert!(SecurityManager::is_dangerous_command("RM -RF /"));
    assert!(SecurityManager::is_dangerous_command("Format C:"));
    assert!(SecurityManager::is_dangerous_command(":(){ :|:& };:"));
    assert!(SecurityManager::needs_warning("CHMOD 644 file"));
    assert!(!SecurityManager::needs_warning("rm"));
    assert_eq!(command_clearance("SUDO RM x"), Clearance::Confirmation);
    assert_eq!(command_clearance("mv a b"), Clearance::Approval);
    assert_eq!(command_clearance("rm -rf build"), Clearance::Confirmation);
    assert_eq!(command_clearance("cargo build"), Clearance::Open);
}

#[test]
fn folders_are_trusted_by_prefix() {
    let mut manager = SecurityManager::new();
    assert!(!manager.is_folder_trusted("work/project"));
    assert!(manager.add_trusted_folder("Work/Project".to_string()));
    assert!(!manager.add_trusted_folder("Work/Project".to_string()));
    assert_eq!(manager.trusted_folders, vec!["Work/Project".to_string()]);
    assert!(manager.is_folder_trusted("work/project/src"));
    assert!(manager.is_folder_trusted("WORK/PROJECT"));
    assert!(!manager.is_folder_trusted("work/other"));

    assert_eq!(manager.determine_security_level("work/project/src"), SecurityLevel::Trusted);
    assert_eq!(manager.current_level, SecurityLevel::Trusted);
    assert_eq!(manager.determine_security_level("elsewhere"), SecurityLevel::Untrusted);
    assert_eq!(manager.determine_security_level("/Home/user"), SecurityLevel::Restricted);
    assert_eq!(manager.determine_security_level("C:\\Windows\\System32"), SecurityLevel::Restricted);
    assert_eq!(manager.current_level, SecurityLevel::Restricted);
    assert!(manager.add_trusted_folder("/srv/code".to_string()));
    assert_eq!(manager.determine_security_level("/srv/code/x"), SecurityLevel::Restricted);
}

#[test]
fn session_approvals_cover_their_hour() {
    let mut manager = SecurityManager::new();
    assert_eq!(manager.session_duration, 3600);
    assert!(!manager.has_session_approval("git_commit", 1000));
    manager.add_session_approval("git_commit", 1000);
    assert!(manager.has_session_approval("git_commit", 1000));
    assert!(manager.has_session_approval("git_commit", 4600));
    assert!(!manager.has_session_approval("git_commit", 4601));
    assert!(!manager.has_session_approval("git_commit", 999));
    assert!(!manager.has_session_approval("file_operation", 1000));

    manager.add_session_approval("file_operation", 2000);
    manager.add_session_approval("git_commit", 3000);
    assert_eq!(manager.session_approvals.len(), 2);
    assert_eq!(manager.session_approvals[0].command_type, "file_operation");
    assert_eq!(manager.session_approvals[1].approved_at, 3000);
    assert_eq!(manager.session_approvals[1].expires_at, 6600);

    manager.add_session_approval("other", 6000);
    assert_eq!(manager.session_approvals.len(), 2);
    assert_eq!(manager.session_approvals[0].command_type, "git_commit");

    manager.add_session_approval("late", u64::MAX - 5);
    assert_eq!(manager.session_approvals.len(), 1);
    assert_eq!(manager.session_approvals[0].expires_at, u64::MAX);
}

#[test]
fn answers_are_trimmed_and_read_in_lower_case() {
    let yes = ApprovalDecision { option: ApprovalOption::Yes, understood: true };
    assert_eq!(read_approval("y\n"), yes);
    assert_eq!(read_approval("  YES  "), yes);
    assert_eq!(read_approval("yf").option, ApprovalOption::YesForSession);
    assert_eq!(read_approval("Yes For Session\r\n").option, ApprovalOption::YesForSession);
    assert_eq!(read_approval("n"), ApprovalDecision { option: ApprovalOption::No, understood: true });
    assert_eq!(read_approval("NO").option, ApprovalOption::No);
    assert_eq!(read_approval("e").option, ApprovalOption::EditAndRetry);
    assert_eq!(read_approval("Edit").option, ApprovalOption::EditAndRetry);
    assert_eq!(
        read_approval("maybe"),
        ApprovalDecision { option: ApprovalOption::No, understood: false }
    );
    assert_eq!(read_approval("").understood, false);

    let mut manager = SecurityManager::new();
    assert_eq!(manager.record_approval("git_commit", "y", 10).option, ApprovalOption::Yes);
    assert!(manager.session_approvals.is_empty());
    assert_eq!(
        manager.record_approval("git_commit", "yf\n", 10).option,
        ApprovalOption::YesForSession
    );
    assert!(manager.has_session_approval("git_commit", 11));
}

#[test]
fn confirmations_and_custom_text() {
    assert!(wants_trust("\n"));
    assert!(wants_trust("Y\n"));
    assert!(wants_trust(" yes "));
    assert!(!wants_trust("n"));
    assert!(!wants_trust("yes please"));
    assert!(is_confirmed("YES\n"));
    assert!(is_confirmed("  YES"));
    assert!(!is_confirmed("yes"));
    assert!(!is_confirmed("YES!"));
    assert_eq!(custom_text("  fix: typo \n"), Some("fix: typo"));
    assert_eq!(custom_text(" \t\n"), None);
    assert_eq!(custom_text("\u{a0}x\u{3000}"), Some("x"));
    assert_eq!(commit_command("feat: x"), "git commit -m \"feat: x\"");
}
