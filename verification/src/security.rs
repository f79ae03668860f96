//! The rules on what the assistant may run: trusted folders, approvals
//! for the session, and the commands that need a second look.

use vstd::prelude::*;
use crate::text::{
    chars_contain, chars_start_with, has_substring, lowercase, lowered_all, same_text, to_chars, to_lowercase,
    trim, trimmed,
};

verus! {

/// How far a directory is trusted.
#[derive(Debug, Clone, Copy, PartialEq, Eq, Structural)]
pub enum SecurityLevel {
    /// Read only.
    Untrusted,
    /// An approved folder.
    Trusted,
    /// A system directory: restricted mode.
    Restricted,
}

/// What the user answered when asked to approve a command.
#[derive(Debug, Clone, Copy, PartialEq, Eq, Structural)]
pub enum ApprovalOption {
    /// Run this once.
    Yes,
    /// Run every command of this type for the rest of the session.
    YesForSession,
    /// Do not run it.
    No,
    /// Let the user change the command first.
    EditAndRetry,
}

/// An approval that covers every command of one type for a while. Times are
/// seconds since the epoch.
#[derive(Debug)]
pub struct SessionApproval {
    pub command_type: String,
    pub approved_at: u64,
    pub expires_at: u64,
}

/// Mathematical value of a [`SessionApproval`].
pub struct SessionApprovalView {
    pub command_type: Seq<char>,
    pub approved_at: u64,
    pub expires_at: u64,
}

impl View for SessionApproval {
    type V = SessionApprovalView;

    open spec fn view(&self) -> SessionApprovalView {
        SessionApprovalView {
            command_type: self.command_type@,
            approved_at: self.approved_at,
            expires_at: self.expires_at,
        }
    }
}

impl Clone for SessionApproval {
    fn clone(&self) -> (copy: Self)
        ensures
            copy@ == self@,
    {
        SessionApproval {
            command_type: self.command_type.clone(),
            approved_at: self.approved_at,
            expires_at: self.expires_at,
        }
    }
}

impl SessionApprovalView {
    /// Whether the approval covers commands of type `command_type` at the
    /// time `now`.
    pub open spec fn covers(self, command_type: Seq<char>, now: u64) -> bool {
        self.command_type == command_type && self.approved_at <= now <= self.expires_at
    }

    /// Whether the approval outlives a new approval for `command_type` given
    /// at `now`: it is for another type and has not expired.
    pub open spec fn survives(self, command_type: Seq<char>, now: u64) -> bool {
        self.command_type != command_type && now <= self.expires_at
    }
}

/// The views of a list of approvals, in order.
pub open spec fn approvals_view(approvals: Seq<SessionApproval>) -> Seq<SessionApprovalView> {
    Seq::new(approvals.len(), |i: int| approvals[i]@)
}

/// Whether some text of `prefixes` is a prefix of `path`.
pub open spec fn any_prefix(path: Seq<char>, prefixes: Seq<Seq<char>>) -> bool {
    exists|k: int| 0 <= k < prefixes.len() && (#[trigger] prefixes[k]).is_prefix_of(path)
}

/// Whether some text of `patterns` occurs in `text`.
pub open spec fn any_substring(text: Seq<char>, patterns: Seq<Seq<char>>) -> bool {
    exists|k: int| 0 <= k < patterns.len() && has_substring(text, #[trigger] patterns[k])
}

/// The directories in which the assistant restricts itself.
pub open spec fn dangerous_directories() -> Seq<Seq<char>> {
    seq![
        "/"@,
        "/home"@,
        "/users"@,
        "/windows"@,
        "/system32"@,
        "c:\\"@,
        "c:\\windows"@,
        "c:\\program files"@,
    ]
}

/// The fragments that mark a command as dangerous.
pub open spec fn dangerous_patterns() -> Seq<Seq<char>> {
    seq![
        "rm -rf"@,
        "del /"@,
        "format"@,
        "sudo rm"@,
        "chmod 777"@,
        "> /dev/sda"@,
        "dd if="@,
        ":(){ :|:& };:"@,
    ]
}

/// The fragments that mark a command as one to warn about.
pub open spec fn warning_patterns() -> Seq<Seq<char>> {
    seq!["rm "@, "del "@, "mv "@, "chmod "@, "chown "@, "git clean"@, "git reset --hard"@]
}

/// The level of a directory whose lower-case path is `path`: restricted
/// under a dangerous directory, else trusted under a trusted folder, else
/// untrusted.
pub open spec fn level_of(path: Seq<char>, dangerous: Seq<Seq<char>>, trusted: Seq<Seq<char>>) -> SecurityLevel {
    if any_prefix(path, dangerous) {
        SecurityLevel::Restricted
    } else if any_prefix(path, trusted) {
        SecurityLevel::Trusted
    } else {
        SecurityLevel::Untrusted
    }
}

/// The listed texts as owned strings.
fn owned_all(items: &[&str]) -> (owned: Vec<String>)
    ensures
        owned.len() == items.len(),
        forall|i: int| 0 <= i < items.len() ==> owned[i]@ == items[i]@,
{
    let mut owned: Vec<String> = Vec::new();
    let mut i: usize = 0;
    while i < items.len()
        invariant
            i <= items.len(),
            owned.len() == i,
            forall|k: int| 0 <= k < i ==> owned[k]@ == items[k]@,
        decreases items.len() - i,
    {
        owned.push(String::from_str(items[i]));
        i += 1;
    }
    owned
}

/// The lower-case form of each text, in order.
pub fn lowercase_all(items: &Vec<String>) -> (lowered: Vec<String>)
    ensures
        lowered.deep_view() == lowered_all(items.deep_view()),
{
    let mut lowered: Vec<String> = Vec::new();
    let mut i: usize = 0;
    while i < items.len()
        invariant
            i <= items.len(),
            lowered.len() == i,
            forall|k: int| 0 <= k < i ==> lowered[k]@ == lowercase(items[k]@),
        decreases items.len() - i,
    {
        lowered.push(to_lowercase(items[i].as_str()));
        i += 1;
    }
    assert(lowered.deep_view() =~= lowered_all(items.deep_view()));
    lowered
}

/// Whether some text of `prefixes` is a prefix of `path`.
pub fn starts_with_any(path: &str, prefixes: &Vec<String>) -> (yes: bool)
    ensures
        yes == any_prefix(path@, prefixes.deep_view()),
{
    let chars = to_chars(path);
    let mut k: usize = 0;
    while k < prefixes.len()
        invariant
            k <= prefixes.len(),
            chars@ == path@,
            forall|j: int| 0 <= j < k ==> !(#[trigger] prefixes.deep_view()[j]).is_prefix_of(path@),
        decreases prefixes.len() - k,
    {
        let prefix = to_chars(prefixes[k].as_str());
        assert(prefixes.deep_view()[k as int] == prefix@);
        if chars_start_with(&chars, &prefix) {
            return true;
        }
        k += 1;
    }
    false
}

/// Whether some text of `patterns` occurs in `text`.
pub fn contains_any(text: &str, patterns: &Vec<String>) -> (yes: bool)
    ensures
        yes == any_substring(text@, patterns.deep_view()),
{
    let chars = to_chars(text);
    let mut k: usize = 0;
    while k < patterns.len()
        invariant
            k <= patterns.len(),
            chars@ == text@,
            forall|j: int| 0 <= j < k ==> !has_substring(text@, #[trigger] patterns.deep_view()[j]),
        decreases patterns.len() - k,
    {
        let pattern = to_chars(patterns[k].as_str());
        assert(patterns.deep_view()[k as int] == pattern@);
        if chars_contain(&chars, &pattern) {
            return true;
        }
        k += 1;
    }
    false
}

/// The level of the directory whose lower-case path is `path`, given the
/// dangerous directories and the trusted folders, all in lower case.
pub fn classify_directory(path: &str, dangerous: &Vec<String>, trusted: &Vec<String>) -> (level:
    SecurityLevel)
    ensures
        level == level_of(path@, dangerous.deep_view(), trusted.deep_view()),
{
    if starts_with_any(path, dangerous) {
        SecurityLevel::Restricted
    } else if starts_with_any(path, trusted) {
        SecurityLevel::Trusted
    } else {
        SecurityLevel::Untrusted
    }
}

/// The directories in which the assistant restricts itself.
pub fn dangerous_directory_list() -> (list: Vec<String>)
    ensures
        list.deep_view() == dangerous_directories(),
{
    let items = [
        "/",
        "/home",
        "/users",
        "/windows",
        "/system32",
        "c:\\",
        "c:\\windows",
        "c:\\program files",
    ];
    let list = owned_all(&items);
    assert(list.deep_view() =~= dangerous_directories());
    list
}

/// The fragments that mark a command as dangerous.
pub fn dangerous_pattern_list() -> (list: Vec<String>)
    ensures
        list.deep_view() == dangerous_patterns(),
{
    let items = [
        "rm -rf",
        "del /",
        "format",
        "sudo rm",
        "chmod 777",
        "> /dev/sda",
        "dd if=",
        ":(){ :|:& };:",
    ];
    let list = owned_all(&items);
    assert(list.deep_view() =~= dangerous_patterns());
    list
}

/// The fragments that mark a command as one to warn about.
pub fn warning_pattern_list() -> (list: Vec<String>)
    ensures
        list.deep_view() == warning_patterns(),
{
    let items = ["rm ", "del ", "mv ", "chmod ", "chown ", "git clean", "git reset --hard"];
    let list = owned_all(&items);
    assert(list.deep_view() =~= warning_patterns());
    list
}

/// What stands between a command and its execution.
#[derive(Debug, Clone, Copy, PartialEq, Eq, Structural)]
pub enum Clearance {
    /// The command is dangerous: the user must confirm it in full.
    Confirmation,
    /// The command deserves a warning: the user must approve it.
    Approval,
    /// The command runs without a question.
    Open,
}

/// What a command whose lower-case form is `lowered` needs before it runs:
/// a dangerous fragment asks for confirmation, else a fragment to warn about
/// asks for approval.
pub open spec fn clearance_of(lowered: Seq<char>) -> Clearance {
    if any_substring(lowered, dangerous_patterns()) {
        Clearance::Confirmation
    } else if any_substring(lowered, warning_patterns()) {
        Clearance::Approval
    } else {
        Clearance::Open
    }
}

/// What the command whose lower-case form is `lowered` needs before it runs.
pub fn clearance_of_lowered(lowered: &str) -> (clearance: Clearance)
    ensures
        clearance == clearance_of(lowered@),
{
    if contains_any(lowered, &dangerous_pattern_list()) {
        Clearance::Confirmation
    } else if contains_any(lowered, &warning_pattern_list()) {
        Clearance::Approval
    } else {
        Clearance::Open
    }
}

/// What `command` needs before it runs.
pub fn command_clearance(command: &str) -> (clearance: Clearance)
    ensures
        clearance == clearance_of(lowercase(command@)),
{
    let lowered = to_lowercase(command);
    clearance_of_lowered(lowered.as_str())
}

/// Mathematical value of a [`SecurityManager`].
pub struct SecurityManagerView {
    pub trusted_folders: Seq<Seq<char>>,
    pub session_approvals: Seq<SessionApprovalView>,
    pub current_level: SecurityLevel,
    pub session_duration: u64,
}

/// Keeps the trusted folders and the approvals of the session.
#[derive(Debug)]
pub struct SecurityManager {
    pub trusted_folders: Vec<String>,
    pub session_approvals: Vec<SessionApproval>,
    pub current_level: SecurityLevel,
    /// How long an approval for the session lasts, in seconds.
    pub session_duration: u64,
}

impl View for SecurityManager {
    type V = SecurityManagerView;

    open spec fn view(&self) -> SecurityManagerView {
        SecurityManagerView {
            trusted_folders: self.trusted_folders.deep_view(),
            session_approvals: approvals_view(self.session_approvals@),
            current_level: self.current_level,
            session_duration: self.session_duration,
        }
    }
}

impl SecurityManagerView {
    /// Whether an approval of the session covers commands of type
    /// `command_type` at the time `now`.
    pub open spec fn has_session_approval(self, command_type: Seq<char>, now: u64) -> bool {
        exists|i: int|
            0 <= i < self.session_approvals.len() && (#[trigger] self.session_approvals[i]).covers(
                command_type,
                now,
            )
    }

    /// Whether `folder` lies under a trusted folder, both compared in lower
    /// case.
    pub open spec fn trusts(self, folder: Seq<char>) -> bool {
        any_prefix(lowercase(folder), lowered_all(self.trusted_folders))
    }
}

impl SecurityManager {
    /// A manager that trusts no folder and holds no approval. Approvals for
    /// the session last an hour.
    pub fn new() -> (manager: Self)
        ensures
            manager@ == (SecurityManagerView {
                trusted_folders: Seq::<Seq<char>>::empty(),
                session_approvals: Seq::<SessionApprovalView>::empty(),
                current_level: SecurityLevel::Untrusted,
                session_duration: 3600,
            }),
    {
        let manager = SecurityManager {
            trusted_folders: Vec::new(),
            session_approvals: Vec::new(),
            current_level: SecurityLevel::Untrusted,
            session_duration: 3600,
        };
        assert(manager@.trusted_folders =~= Seq::<Seq<char>>::empty());
        assert(manager@.session_approvals =~= Seq::<SessionApprovalView>::empty());
        manager
    }

    /// Decides the level of the directory `current_dir` and keeps it as the
    /// current level. Paths are compared in lower case.
    pub fn determine_security_level(&mut self, current_dir: &str) -> (level: SecurityLevel)
        ensures
            level == level_of(
                lowercase(current_dir@),
                lowered_all(dangerous_directories()),
                lowered_all(old(self)@.trusted_folders),
            ),
            final(self)@ == (SecurityManagerView { current_level: level, ..old(self)@ }),
    {
        let path = to_lowercase(current_dir);
        let dangerous = lowercase_all(&dangerous_directory_list());
        let trusted = lowercase_all(&self.trusted_folders);
        let level = classify_directory(path.as_str(), &dangerous, &trusted);
        self.current_level = level;
        level
    }

    /// Whether `folder` lies under a trusted folder.
    pub fn is_folder_trusted(&self, folder: &str) -> (trusted: bool)
        ensures
            trusted == self@.trusts(folder@),
    {
        let path = to_lowercase(folder);
        let folders = lowercase_all(&self.trusted_folders);
        starts_with_any(path.as_str(), &folders)
    }

    /// Adds `folder` to the trusted folders unless it is among them, and says
    /// whether it was added.
    pub fn add_trusted_folder(&mut self, folder: String) -> (added: bool)
        ensures
            added == !old(self)@.trusted_folders.contains(folder@),
            final(self)@ == (SecurityManagerView {
                trusted_folders: if added {
                    old(self)@.trusted_folders.push(folder@)
                } else {
                    old(self)@.trusted_folders
                },
                ..old(self)@
            }),
    {
        let mut i: usize = 0;
        while i < self.trusted_folders.len()
            invariant
                i <= self.trusted_folders.len(),
                *self == *old(self),
                forall|k: int| 0 <= k < i ==> self.trusted_folders[k]@ != folder@,
            decreases self.trusted_folders.len() - i,
        {
            if same_text(self.trusted_folders[i].as_str(), folder.as_str()) {
                assert(self@.trusted_folders[i as int] == folder@);
                return false;
            }
            i += 1;
        }
        assert(!self@.trusted_folders.contains(folder@));
        self.trusted_folders.push(folder);
        assert(self@.trusted_folders =~= old(self)@.trusted_folders.push(folder@));
        true
    }

    /// Whether an approval of the session covers commands of type
    /// `command_type` at the time `now`, in seconds since the epoch.
    pub fn has_session_approval(&self, command_type: &str, now: u64) -> (approved: bool)
        ensures
            approved == self@.has_session_approval(command_type@, now),
    {
        let mut i: usize = 0;
        while i < self.session_approvals.len()
            invariant
                i <= self.session_approvals.len(),
                forall|k: int| 0 <= k < i ==> !(#[trigger] self@.session_approvals[k]).covers(
                    command_type@,
                    now,
                ),
            decreases self.session_approvals.len() - i,
        {
            let approval = &self.session_approvals[i];
            assert(self@.session_approvals[i as int] == approval@);
            if same_text(approval.command_type.as_str(), command_type) && approval.approved_at <= now
                && now <= approval.expires_at {
                return true;
            }
            i += 1;
        }
        false
    }

    /// Whether `command` holds a fragment that marks it as dangerous, in
    /// whatever case it is written.
    pub fn is_dangerous_command(command: &str) -> (dangerous: bool)
        ensures
            dangerous == any_substring(lowercase(command@), dangerous_patterns()),
    {
        let lowered = to_lowercase(command);
        contains_any(lowered.as_str(), &dangerous_pattern_list())
    }

    /// Whether `command` holds a fragment to warn about, in whatever case it
    /// is written.
    pub fn needs_warning(command: &str) -> (warn: bool)
        ensures
            warn == any_substring(lowercase(command@), warning_patterns()),
    {
        let lowered = to_lowercase(command);
        contains_any(lowered.as_str(), &warning_pattern_list())
    }

    /// Approves every command of type `command_type` from `now` on, for the
    /// session's duration. Earlier approvals for the same type and approvals
    /// that have expired are dropped; the others stay, in order, before the
    /// new one.
    pub fn add_session_approval(&mut self, command_type: &str, now: u64)
        ensures
            final(self)@ == (SecurityManagerView {
                session_approvals: kept_approvals(
                    old(self)@.session_approvals,
                    command_type@,
                    now,
                ).push(
                    SessionApprovalView {
                        command_type: command_type@,
                        approved_at: now,
                        expires_at: expiry(now, old(self)@.session_duration),
                    },
                ),
                ..old(self)@
            }),
    {
        let ghost before = self@.session_approvals;
        let mut kept: Vec<SessionApproval> = Vec::new();
        let mut i: usize = 0;
        while i < self.session_approvals.len()
            invariant
                i <= self.session_approvals.len(),
                *self == *old(self),
                before == self@.session_approvals,
                approvals_view(kept@) == kept_approvals(before.take(i as int), command_type@, now),
            decreases self.session_approvals.len() - i,
        {
            let approval = &self.session_approvals[i];
            proof {
                let next = before.take(i + 1);
                assert(next.drop_last() =~= before.take(i as int));
                assert(next.last() == approval@);
            }
            if !same_text(approval.command_type.as_str(), command_type) && now
                <= approval.expires_at {
                kept.push(approval.clone());
                assert(approvals_view(kept@) =~= kept_approvals(
                    before.take(i + 1),
                    command_type@,
                    now,
                ));
            }
            i += 1;
        }
        assert(before.take(i as int) =~= before);
        let expires_at = if now > u64::MAX - self.session_duration {
            u64::MAX
        } else {
            now + self.session_duration
        };
        let ghost kept_before = approvals_view(kept@);
        kept.push(SessionApproval { command_type: String::from_str(command_type), approved_at: now, expires_at });
        assert(approvals_view(kept@) =~= kept_before.push(
            SessionApprovalView {
                command_type: command_type@,
                approved_at: now,
                expires_at: expiry(now, self.session_duration),
            },
        ));
        self.session_approvals = kept;
    }

    /// Takes the user's answer to the question whether a command of type
    /// `command_type` may run. An approval for the session is recorded from
    /// `now` on; any other answer leaves the manager as it is. An answer that
    /// is not understood counts as a refusal.
    pub fn record_approval(&mut self, command_type: &str, response: &str, now: u64) -> (decision:
        ApprovalDecision)
        ensures
            decision == decision_for(lowercase(trimmed(response@))),
            decision.option == ApprovalOption::YesForSession ==> final(self)@ == (
            SecurityManagerView {
                session_approvals: kept_approvals(
                    old(self)@.session_approvals,
                    command_type@,
                    now,
                ).push(
                    SessionApprovalView {
                        command_type: command_type@,
                        approved_at: now,
                        expires_at: expiry(now, old(self)@.session_duration),
                    },
                ),
                ..old(self)@
            }),
            decision.option != ApprovalOption::YesForSession ==> final(self)@ == old(self)@,
    {
        let decision = read_approval(response);
        match decision.option {
            ApprovalOption::YesForSession => {
                self.add_session_approval(command_type, now);
            },
            _ => {},
        }
        decision
    }
}

/// When an approval given at `now` for `duration` seconds expires: at the
/// end of time where the sum does not fit.
pub open spec fn expiry(now: u64, duration: u64) -> u64 {
    if now + duration > u64::MAX {
        u64::MAX
    } else {
        (now + duration) as u64
    }
}

/// The approvals that outlive a new approval for `command_type` given at
/// `now`, in order.
pub open spec fn kept_approvals(
    approvals: Seq<SessionApprovalView>,
    command_type: Seq<char>,
    now: u64,
) -> Seq<SessionApprovalView>
    decreases approvals.len(),
{
    if approvals.len() == 0 {
        Seq::<SessionApprovalView>::empty()
    } else {
        let rest = kept_approvals(approvals.drop_last(), command_type, now);
        if approvals.last().survives(command_type, now) {
            rest.push(approvals.last())
        } else {
            rest
        }
    }
}

/// An answer to the approval question, and whether it was understood.
#[derive(Debug, Clone, Copy, PartialEq, Eq, Structural)]
pub struct ApprovalDecision {
    pub option: ApprovalOption,
    pub understood: bool,
}

/// What an answer means, once trimmed and in lower case: `y` or `yes`
/// approve once, `yes for session` or `yf` approve for the session, `n` or
/// `no` refuse, `e` or `edit` ask to edit. Anything else is not understood
/// and counts as a refusal.
pub open spec fn decision_for(answer: Seq<char>) -> ApprovalDecision {
    if answer == "y"@ || answer == "yes"@ {
        ApprovalDecision { option: ApprovalOption::Yes, understood: true }
    } else if answer == "yes for session"@ || answer == "yf"@ {
        ApprovalDecision { option: ApprovalOption::YesForSession, understood: true }
    } else if answer == "n"@ || answer == "no"@ {
        ApprovalDecision { option: ApprovalOption::No, understood: true }
    } else if answer == "e"@ || answer == "edit"@ {
        ApprovalDecision { option: ApprovalOption::EditAndRetry, understood: true }
    } else {
        ApprovalDecision { option: ApprovalOption::No, understood: false }
    }
}

/// What the answer `answer` means, given trimmed and in lower case.
pub fn decide_approval(answer: &str) -> (decision: ApprovalDecision)
    ensures
        decision == decision_for(answer@),
{
    if same_text(answer, "y") || same_text(answer, "yes") {
        ApprovalDecision { option: ApprovalOption::Yes, understood: true }
    } else if same_text(answer, "yes for session") || same_text(answer, "yf") {
        ApprovalDecision { option: ApprovalOption::YesForSession, understood: true }
    } else if same_text(answer, "n") || same_text(answer, "no") {
        ApprovalDecision { option: ApprovalOption::No, understood: true }
    } else if same_text(answer, "e") || same_text(answer, "edit") {
        ApprovalDecision { option: ApprovalOption::EditAndRetry, understood: true }
    } else {
        ApprovalDecision { option: ApprovalOption::No, understood: false }
    }
}

/// What the user's answer to the approval question means: the line is
/// trimmed and read in lower case.
pub fn read_approval(response: &str) -> (decision: ApprovalDecision)
    ensures
        decision == decision_for(lowercase(trimmed(response@))),
{
    let answer = to_lowercase(trim(response));
    decide_approval(answer.as_str())
}

/// Whether an answer, trimmed and in lower case, agrees to trust a folder:
/// the empty answer, `y` or `yes`.
pub open spec fn agrees(answer: Seq<char>) -> bool {
    answer.len() == 0 || answer == "y"@ || answer == "yes"@
}

/// Whether the answer `answer`, given trimmed and in lower case, agrees.
pub fn answer_agrees(answer: &str) -> (yes: bool)
    ensures
        yes == agrees(answer@),
{
    answer.unicode_len() == 0 || same_text(answer, "y") || same_text(answer, "yes")
}

/// Whether the user's answer agrees to trust a folder: the line is trimmed
/// and read in lower case.
pub fn wants_trust(response: &str) -> (yes: bool)
    ensures
        yes == agrees(lowercase(trimmed(response@))),
{
    let answer = to_lowercase(trim(response));
    answer_agrees(answer.as_str())
}

/// Whether the user confirmed a dangerous command: the line, trimmed, must
/// be `YES` in capitals.
pub fn is_confirmed(response: &str) -> (yes: bool)
    ensures
        yes == (trimmed(response@) == "YES"@),
{
    same_text(trim(response), "YES")
}

/// The text the user typed in place of a proposal: the line, trimmed, or
/// `None` where nothing is left of it.
pub fn custom_text(response: &str) -> (text: Option<&str>)
    ensures
        match text {
            Some(t) => t@ == trimmed(response@) && t@.len() > 0,
            None => trimmed(response@).len() == 0,
        },
{
    let t = trim(response);
    if t.unicode_len() == 0 {
        None
    } else {
        Some(t)
    }
}

/// The command line that commits with the message `message`, as it is shown
/// to the user.
pub fn commit_command(message: &str) -> (command: String)
    ensures
        command@ == "git commit -m \""@ + message@ + "\""@,
{
    let mut command = String::from_str("git commit -m \"");
    command.append(message);
    command.append("\"");
    command
}

} // verus!
