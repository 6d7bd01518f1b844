//! What can go wrong in building the sandbox, and how it is told.

use vstd::prelude::*;

use crate::text::{decimal, push_decimal, push_text};

verus! {

/// A failed step. `last_error` is what `GetLastError` returned, `code` a status
/// that the call itself returned, and `root` the number of the directory that is
/// the writable root.
#[derive(Clone, Copy, Debug, PartialEq, Eq, Structural)]
pub enum SandboxError {
    CreateFile { root: usize, last_error: u32 },
    GetSecurityInfo { root: usize, code: u32 },
    SetEntriesInAcl { root: usize, code: u32 },
    InitializeSecurityDescriptor { last_error: u32 },
    SetSecurityDescriptorDacl { last_error: u32 },
    SetKernelObjectSecurity { root: usize, last_error: u32 },
    InvalidSidString,
    OpenProcessToken { last_error: u32 },
    TokenGroupsSize,
    TokenGroups,
    TokenGroupsTruncated,
    LogonSidLength,
    LogonSidCopy,
    LogonSidMissing,
    CreateWellKnownSid { last_error: u32 },
    CreateRestrictedToken { last_error: u32 },
    DefaultDaclEntries { code: u32 },
    SetTokenDefaultDacl { last_error: u32 },
    LookupPrivilegeValue { last_error: u32 },
    AdjustTokenPrivileges { last_error: u32 },
    CreateJobObject { last_error: u32 },
    SetInformationJobObject { last_error: u32 },
    AssignProcessToJobObject { last_error: u32 },
    ResumeThread { last_error: u32 },
    CreateProcess { last_error: u32 },
    ReadPolicy,
    ParsePolicy,
}

/// What an error is about.
#[derive(Clone, Copy, Debug, PartialEq, Eq, Structural)]
pub enum Subject {
    /// The path of the root that is the directory of that number.
    Root(usize),
    /// The text of the capability SID.
    Sid,
    /// The command line of the command.
    CommandLine,
    /// The path of the policy file.
    PolicyFile,
    Nothing,
}

/// What an error is about.
pub open spec fn subject_of(error: SandboxError) -> Subject {
    match error {
        SandboxError::CreateFile { root, .. } => Subject::Root(root),
        SandboxError::GetSecurityInfo { root, .. } => Subject::Root(root),
        SandboxError::SetEntriesInAcl { root, .. } => Subject::Root(root),
        SandboxError::SetKernelObjectSecurity { root, .. } => Subject::Root(root),
        SandboxError::InvalidSidString => Subject::Sid,
        SandboxError::CreateProcess { .. } => Subject::CommandLine,
        SandboxError::ReadPolicy => Subject::PolicyFile,
        SandboxError::ParsePolicy => Subject::PolicyFile,
        _ => Subject::Nothing,
    }
}

/// The text of a call that failed with a code.
pub open spec fn failed_text(call: Seq<char>, code: u32) -> Seq<char> {
    call + " failed: "@ + decimal(code as nat)
}

/// The text of a call that failed on a path with a code.
pub open spec fn failed_for_text(call: Seq<char>, path: Seq<char>, code: u32) -> Seq<char> {
    call + " failed for "@ + path + ": "@ + decimal(code as nat)
}

/// How an error is told. `subject` is the text of what it is about (see
/// [`subject_of`]). `message` is the description of what the system or the
/// parser found wrong, where there is one.
pub open spec fn description(error: SandboxError, subject: Seq<char>, message: Seq<char>) -> Seq<char> {
    match error {
        SandboxError::CreateFile { last_error, .. } => failed_for_text("CreateFileW"@, subject, last_error),
        SandboxError::GetSecurityInfo { code, .. } => failed_for_text("GetSecurityInfo"@, subject, code),
        SandboxError::SetEntriesInAcl { code, .. } => failed_for_text("SetEntriesInAclW"@, subject, code),
        SandboxError::SetKernelObjectSecurity { last_error, .. } => failed_for_text("SetKernelObjectSecurity"@, subject, last_error),
        SandboxError::InitializeSecurityDescriptor { last_error } => failed_text("InitializeSecurityDescriptor"@, last_error),
        SandboxError::SetSecurityDescriptorDacl { last_error } => failed_text("SetSecurityDescriptorDacl"@, last_error),
        SandboxError::OpenProcessToken { last_error } => failed_text("OpenProcessToken"@, last_error),
        SandboxError::CreateWellKnownSid { last_error } => failed_text("CreateWellKnownSid"@, last_error),
        SandboxError::CreateRestrictedToken { last_error } => failed_text("CreateRestrictedToken"@, last_error),
        SandboxError::DefaultDaclEntries { code } => failed_text("SetEntriesInAclW"@, code),
        SandboxError::SetTokenDefaultDacl { last_error } => failed_text("SetTokenInformation(TokenDefaultDacl)"@, last_error),
        SandboxError::LookupPrivilegeValue { last_error } => failed_text("LookupPrivilegeValueW"@, last_error),
        SandboxError::AdjustTokenPrivileges { last_error } => failed_text("AdjustTokenPrivileges"@, last_error),
        SandboxError::CreateJobObject { last_error } => failed_text("CreateJobObjectW"@, last_error),
        SandboxError::SetInformationJobObject { last_error } => failed_text("SetInformationJobObject"@, last_error),
        SandboxError::AssignProcessToJobObject { last_error } => failed_text("AssignProcessToJobObject"@, last_error),
        SandboxError::ResumeThread { last_error } => failed_text("ResumeThread"@, last_error),
        SandboxError::TokenGroupsSize => "TokenGroups size query returned 0"@,
        SandboxError::TokenGroups => "GetTokenInformation(TokenGroups) failed"@,
        SandboxError::TokenGroupsTruncated => "GetTokenInformation(TokenGroups) returned a truncated list"@,
        SandboxError::LogonSidLength => "GetLengthSid(logon) failed"@,
        SandboxError::LogonSidCopy => "CopySid(logon) failed"@,
        SandboxError::LogonSidMissing => "Logon SID not present on token"@,
        SandboxError::InvalidSidString => "invalid SID string: "@ + subject,
        SandboxError::CreateProcess { last_error } => "CreateProcess failed: "@ + decimal(last_error as nat) + " ("@
            + message + ") | cmd="@ + subject,
        SandboxError::ReadPolicy => "failed to read sandbox policy "@ + subject + ": "@ + message,
        SandboxError::ParsePolicy => "failed to parse sandbox policy "@ + subject + ": "@ + message,
    }
}

/// What was being done when an error came, where that is told too.
pub open spec fn context(error: SandboxError, program: Seq<char>) -> Seq<char> {
    match error {
        SandboxError::InvalidSidString => "failed to mint sandbox capability SID: "@,
        SandboxError::CreateProcess { .. } => "failed to launch sandboxed command: "@ + program + ": "@,
        _ => seq![],
    }
}

/// An error with what was being done.
pub open spec fn explanation(
    error: SandboxError,
    program: Seq<char>,
    subject: Seq<char>,
    message: Seq<char>,
) -> Seq<char> {
    context(error, program) + description(error, subject, message)
}

fn failed(call: &str, code: u32) -> (r: String)
    ensures
        r@ == failed_text(call@, code),
{
    let mut text = String::new();
    push_text(&mut text, call);
    push_text(&mut text, " failed: ");
    push_decimal(&mut text, code);
    assert(text@ =~= failed_text(call@, code));
    text
}

fn failed_for(call: &str, path: &str, code: u32) -> (r: String)
    ensures
        r@ == failed_for_text(call@, path@, code),
{
    let mut text = String::new();
    push_text(&mut text, call);
    push_text(&mut text, " failed for ");
    push_text(&mut text, path);
    push_text(&mut text, ": ");
    push_decimal(&mut text, code);
    assert(text@ =~= failed_for_text(call@, path@, code));
    text
}

impl SandboxError {
    /// What the error is about.
    pub fn subject(&self) -> (r: Subject)
        ensures
            r == subject_of(*self),
    {
        match *self {
            SandboxError::CreateFile { root, .. } => Subject::Root(root),
            SandboxError::GetSecurityInfo { root, .. } => Subject::Root(root),
            SandboxError::SetEntriesInAcl { root, .. } => Subject::Root(root),
            SandboxError::SetKernelObjectSecurity { root, .. } => Subject::Root(root),
            SandboxError::InvalidSidString => Subject::Sid,
            SandboxError::CreateProcess { .. } => Subject::CommandLine,
            SandboxError::ReadPolicy => Subject::PolicyFile,
            SandboxError::ParsePolicy => Subject::PolicyFile,
            _ => Subject::Nothing,
        }
    }

    /// The code that the system describes in a message of its own, which the
    /// error's text then holds.
    pub fn described_code(&self) -> (r: Option<u32>)
        ensures
            r == match *self {
                SandboxError::CreateProcess { last_error } => Some(last_error),
                _ => None,
            },
    {
        match *self {
            SandboxError::CreateProcess { last_error } => Some(last_error),
            _ => None,
        }
    }

    /// The error as it is told to the user.
    pub fn describe(&self, subject: &str, message: &str) -> (r: String)
        ensures
            r@ == description(*self, subject@, message@),
    {
        match *self {
            SandboxError::CreateFile { last_error, .. } => failed_for("CreateFileW", subject, last_error),
            SandboxError::GetSecurityInfo { code, .. } => failed_for("GetSecurityInfo", subject, code),
            SandboxError::SetEntriesInAcl { code, .. } => failed_for("SetEntriesInAclW", subject, code),
            SandboxError::SetKernelObjectSecurity { last_error, .. } => failed_for("SetKernelObjectSecurity", subject, last_error),
            SandboxError::InitializeSecurityDescriptor { last_error } => failed("InitializeSecurityDescriptor", last_error),
            SandboxError::SetSecurityDescriptorDacl { last_error } => failed("SetSecurityDescriptorDacl", last_error),
            SandboxError::OpenProcessToken { last_error } => failed("OpenProcessToken", last_error),
            SandboxError::CreateWellKnownSid { last_error } => failed("CreateWellKnownSid", last_error),
            SandboxError::CreateRestrictedToken { last_error } => failed("CreateRestrictedToken", last_error),
            SandboxError::DefaultDaclEntries { code } => failed("SetEntriesInAclW", code),
            SandboxError::SetTokenDefaultDacl { last_error } => failed("SetTokenInformation(TokenDefaultDacl)", last_error),
            SandboxError::LookupPrivilegeValue { last_error } => failed("LookupPrivilegeValueW", last_error),
            SandboxError::AdjustTokenPrivileges { last_error } => failed("AdjustTokenPrivileges", last_error),
            SandboxError::CreateJobObject { last_error } => failed("CreateJobObjectW", last_error),
            SandboxError::SetInformationJobObject { last_error } => failed("SetInformationJobObject", last_error),
            SandboxError::AssignProcessToJobObject { last_error } => failed("AssignProcessToJobObject", last_error),
            SandboxError::ResumeThread { last_error } => failed("ResumeThread", last_error),
            SandboxError::TokenGroupsSize => "TokenGroups size query returned 0".to_string(),
            SandboxError::TokenGroups => "GetTokenInformation(TokenGroups) failed".to_string(),
            SandboxError::TokenGroupsTruncated => "GetTokenInformation(TokenGroups) returned a truncated list".to_string(),
            SandboxError::LogonSidLength => "GetLengthSid(logon) failed".to_string(),
            SandboxError::LogonSidCopy => "CopySid(logon) failed".to_string(),
            SandboxError::LogonSidMissing => "Logon SID not present on token".to_string(),
            SandboxError::InvalidSidString => {
                let mut text = "invalid SID string: ".to_string();
                push_text(&mut text, subject);
                text
            },
            SandboxError::CreateProcess { last_error } => {
                let mut text = "CreateProcess failed: ".to_string();
                push_decimal(&mut text, last_error);
                push_text(&mut text, " (");
                push_text(&mut text, message);
                push_text(&mut text, ") | cmd=");
                push_text(&mut text, subject);
                text
            },
            SandboxError::ReadPolicy => {
                let mut text = "failed to read sandbox policy ".to_string();
                push_text(&mut text, subject);
                push_text(&mut text, ": ");
                push_text(&mut text, message);
                text
            },
            SandboxError::ParsePolicy => {
                let mut text = "failed to parse sandbox policy ".to_string();
                push_text(&mut text, subject);
                push_text(&mut text, ": ");
                push_text(&mut text, message);
                text
            },
        }
    }

    /// The error as it is told to the user, with what was being done: minting
    /// the capability SID, or launching `program`.
    pub fn explain(&self, program: &str, subject: &str, message: &str) -> (r: String)
        ensures
            r@ == explanation(*self, program@, subject@, message@),
    {
        let mut text = String::new();
        match *self {
            SandboxError::InvalidSidString => {
                push_text(&mut text, "failed to mint sandbox capability SID: ");
            },
            SandboxError::CreateProcess { .. } => {
                push_text(&mut text, "failed to launch sandboxed command: ");
                push_text(&mut text, program);
                push_text(&mut text, ": ");
            },
            _ => {},
        }
        assert(text@ =~= context(*self, program@));
        let description = self.describe(subject, message);
        push_text(&mut text, description.as_str());
        text
    }
}

/// The line that tells why the helper failed.
pub fn failure_line(explanation: &str) -> (r: String)
    ensures
        r@ == "zed sandbox helper failed: "@ + explanation@,
{
    let mut text = "zed sandbox helper failed: ".to_string();
    push_text(&mut text, explanation);
    text
}

/// The line that tells why the command runs without its write restriction.
pub fn warning_line(explanation: &str) -> (r: String)
    ensures
        r@
            == "zed sandbox helper: filesystem isolation unavailable, running command without write restriction: "@
            + explanation@,
{
    let mut text =
        "zed sandbox helper: filesystem isolation unavailable, running command without write restriction: ".to_string();
    push_text(&mut text, explanation);
    text
}

/// The text of an error about a root: the call, the root's path and the code.
pub proof fn law_root_error_tells_path_and_code(root: usize, code: u32, path: Seq<char>, message: Seq<char>)
    ensures
        description(SandboxError::CreateFile { root, last_error: code }, path, message)
            == "CreateFileW failed for "@ + path + ": "@ + decimal(code as nat),
        subject_of(SandboxError::CreateFile { root, last_error: code }) == Subject::Root(root),
        description(SandboxError::GetSecurityInfo { root, code }, path, message)
            == "GetSecurityInfo failed for "@ + path + ": "@ + decimal(code as nat),
        subject_of(SandboxError::GetSecurityInfo { root, code }) == Subject::Root(root),
        description(SandboxError::SetEntriesInAcl { root, code }, path, message)
            == "SetEntriesInAclW failed for "@ + path + ": "@ + decimal(code as nat),
        subject_of(SandboxError::SetEntriesInAcl { root, code }) == Subject::Root(root),
        description(SandboxError::SetKernelObjectSecurity { root, last_error: code }, path, message)
            == "SetKernelObjectSecurity failed for "@ + path + ": "@ + decimal(code as nat),
        subject_of(SandboxError::SetKernelObjectSecurity { root, last_error: code }) == Subject::Root(root),
{
    reveal_strlit(" failed for ");
    reveal_strlit("CreateFileW");
    reveal_strlit("CreateFileW failed for ");
    assert("CreateFileW failed for "@ =~= "CreateFileW"@ + " failed for "@);
    reveal_strlit("GetSecurityInfo");
    reveal_strlit("GetSecurityInfo failed for ");
    assert("GetSecurityInfo failed for "@ =~= "GetSecurityInfo"@ + " failed for "@);
    reveal_strlit("SetEntriesInAclW");
    reveal_strlit("SetEntriesInAclW failed for ");
    assert("SetEntriesInAclW failed for "@ =~= "SetEntriesInAclW"@ + " failed for "@);
    reveal_strlit("SetKernelObjectSecurity");
    reveal_strlit("SetKernelObjectSecurity failed for ");
    assert("SetKernelObjectSecurity failed for "@ =~= "SetKernelObjectSecurity"@ + " failed for "@);
}

/// The text of an error of any other call but the one that creates the process:
/// the call and the code.
pub proof fn law_call_error_tells_code(code: u32, subject: Seq<char>, message: Seq<char>)
    ensures
        description(SandboxError::InitializeSecurityDescriptor { last_error: code }, subject, message)
            == "InitializeSecurityDescriptor failed: "@ + decimal(code as nat),
        subject_of(SandboxError::InitializeSecurityDescriptor { last_error: code }) is Nothing,
        description(SandboxError::SetSecurityDescriptorDacl { last_error: code }, subject, message)
            == "SetSecurityDescriptorDacl failed: "@ + decimal(code as nat),
        subject_of(SandboxError::SetSecurityDescriptorDacl { last_error: code }) is Nothing,
        description(SandboxError::OpenProcessToken { last_error: code }, subject, message)
            == "OpenProcessToken failed: "@ + decimal(code as nat),
        subject_of(SandboxError::OpenProcessToken { last_error: code }) is Nothing,
        description(SandboxError::CreateWellKnownSid { last_error: code }, subject, message)
            == "CreateWellKnownSid failed: "@ + decimal(code as nat),
        subject_of(SandboxError::CreateWellKnownSid { last_error: code }) is Nothing,
        description(SandboxError::CreateRestrictedToken { last_error: code }, subject, message)
            == "CreateRestrictedToken failed: "@ + decimal(code as nat),
        subject_of(SandboxError::CreateRestrictedToken { last_error: code }) is Nothing,
        description(SandboxError::DefaultDaclEntries { code }, subject, message)
            == "SetEntriesInAclW failed: "@ + decimal(code as nat),
        subject_of(SandboxError::DefaultDaclEntries { code }) is Nothing,
        description(SandboxError::SetTokenDefaultDacl { last_error: code }, subject, message)
            == "SetTokenInformation(TokenDefaultDacl) failed: "@ + decimal(code as nat),
        subject_of(SandboxError::SetTokenDefaultDacl { last_error: code }) is Nothing,
        description(SandboxError::LookupPrivilegeValue { last_error: code }, subject, message)
            == "LookupPrivilegeValueW failed: "@ + decimal(code as nat),
        subject_of(SandboxError::LookupPrivilegeValue { last_error: code }) is Nothing,
        description(SandboxError::AdjustTokenPrivileges { last_error: code }, subject, message)
            == "AdjustTokenPrivileges failed: "@ + decimal(code as nat),
        subject_of(SandboxError::AdjustTokenPrivileges { last_error: code }) is Nothing,
        description(SandboxError::CreateJobObject { last_error: code }, subject, message)
            == "CreateJobObjectW failed: "@ + decimal(code as nat),
        subject_of(SandboxError::CreateJobObject { last_error: code }) is Nothing,
        description(SandboxError::SetInformationJobObject { last_error: code }, subject, message)
            == "SetInformationJobObject failed: "@ + decimal(code as nat),
        subject_of(SandboxError::SetInformationJobObject { last_error: code }) is Nothing,
        description(SandboxError::AssignProcessToJobObject { last_error: code }, subject, message)
            == "AssignProcessToJobObject failed: "@ + decimal(code as nat),
        subject_of(SandboxError::AssignProcessToJobObject { last_error: code }) is Nothing,
        description(SandboxError::ResumeThread { last_error: code }, subject, message)
            == "ResumeThread failed: "@ + decimal(code as nat),
        subject_of(SandboxError::ResumeThread { last_error: code }) is Nothing,
{
    reveal_strlit(" failed: ");
    reveal_strlit("InitializeSecurityDescriptor");
    reveal_strlit("InitializeSecurityDescriptor failed: ");
    assert("InitializeSecurityDescriptor failed: "@ =~= "InitializeSecurityDescriptor"@ + " failed: "@);
    reveal_strlit("SetSecurityDescriptorDacl");
    reveal_strlit("SetSecurityDescriptorDacl failed: ");
    assert("SetSecurityDescriptorDacl failed: "@ =~= "SetSecurityDescriptorDacl"@ + " failed: "@);
    reveal_strlit("OpenProcessToken");
    reveal_strlit("OpenProcessToken failed: ");
    assert("OpenProcessToken failed: "@ =~= "OpenProcessToken"@ + " failed: "@);
    reveal_strlit("CreateWellKnownSid");
    reveal_strlit("CreateWellKnownSid failed: ");
    assert("CreateWellKnownSid failed: "@ =~= "CreateWellKnownSid"@ + " failed: "@);
    reveal_strlit("CreateRestrictedToken");
    reveal_strlit("CreateRestrictedToken failed: ");
    assert("CreateRestrictedToken failed: "@ =~= "CreateRestrictedToken"@ + " failed: "@);
    reveal_strlit("SetEntriesInAclW");
    reveal_strlit("SetEntriesInAclW failed: ");
    assert("SetEntriesInAclW failed: "@ =~= "SetEntriesInAclW"@ + " failed: "@);
    reveal_strlit("SetTokenInformation(TokenDefaultDacl)");
    reveal_strlit("SetTokenInformation(TokenDefaultDacl) failed: ");
    assert("SetTokenInformation(TokenDefaultDacl) failed: "@ =~= "SetTokenInformation(TokenDefaultDacl)"@ + " failed: "@);
    reveal_strlit("LookupPrivilegeValueW");
    reveal_strlit("LookupPrivilegeValueW failed: ");
    assert("LookupPrivilegeValueW failed: "@ =~= "LookupPrivilegeValueW"@ + " failed: "@);
    reveal_strlit("AdjustTokenPrivileges");
    reveal_strlit("AdjustTokenPrivileges failed: ");
    assert("AdjustTokenPrivileges failed: "@ =~= "AdjustTokenPrivileges"@ + " failed: "@);
    reveal_strlit("CreateJobObjectW");
    reveal_strlit("CreateJobObjectW failed: ");
    assert("CreateJobObjectW failed: "@ =~= "CreateJobObjectW"@ + " failed: "@);
    reveal_strlit("SetInformationJobObject");
    reveal_strlit("SetInformationJobObject failed: ");
    assert("SetInformationJobObject failed: "@ =~= "SetInformationJobObject"@ + " failed: "@);
    reveal_strlit("AssignProcessToJobObject");
    reveal_strlit("AssignProcessToJobObject failed: ");
    assert("AssignProcessToJobObject failed: "@ =~= "AssignProcessToJobObject"@ + " failed: "@);
    reveal_strlit("ResumeThread");
    reveal_strlit("ResumeThread failed: ");
    assert("ResumeThread failed: "@ =~= "ResumeThread"@ + " failed: "@);
}

/// The text of an error in creating the process: the code, what the system says
/// of it, and the command line.
pub proof fn law_launch_error_tells_command_line(code: u32, line: Seq<char>, message: Seq<char>, program: Seq<char>)
    ensures
        ({
            let error = SandboxError::CreateProcess { last_error: code };
            &&& subject_of(error) is CommandLine
            &&& description(error, line, message) == "CreateProcess failed: "@ + decimal(code as nat) + " ("@ + message
                + ") | cmd="@ + line
            &&& explanation(error, program, line, message) == "failed to launch sandboxed command: "@ + program + ": "@
                + description(error, line, message)
        }),
{
}

/// The text of an error with the capability SID's text, and of those with the
/// policy file.
pub proof fn law_error_tells_its_subject(subject: Seq<char>, message: Seq<char>, program: Seq<char>)
    ensures
        subject_of(SandboxError::InvalidSidString) is Sid,
        description(SandboxError::InvalidSidString, subject, message) == "invalid SID string: "@ + subject,
        explanation(SandboxError::InvalidSidString, program, subject, message)
            == "failed to mint sandbox capability SID: invalid SID string: "@ + subject,
        subject_of(SandboxError::ReadPolicy) is PolicyFile,
        description(SandboxError::ReadPolicy, subject, message) == "failed to read sandbox policy "@ + subject + ": "@
            + message,
        subject_of(SandboxError::ParsePolicy) is PolicyFile,
        description(SandboxError::ParsePolicy, subject, message) == "failed to parse sandbox policy "@ + subject + ": "@
            + message,
{
    let a = "failed to mint sandbox capability SID: "@;
    let b = "invalid SID string: "@;
    reveal_strlit("failed to mint sandbox capability SID: ");
    reveal_strlit("invalid SID string: ");
    reveal_strlit("failed to mint sandbox capability SID: invalid SID string: ");
    assert("failed to mint sandbox capability SID: invalid SID string: "@ =~= a + b);
    assert(a + (b + subject) =~= a + b + subject);
}

/// The texts of the errors in reading the logon session's SID, which hold
/// nothing else.
pub proof fn law_logon_error_texts(subject: Seq<char>, message: Seq<char>)
    ensures
        description(SandboxError::TokenGroupsSize, subject, message) == "TokenGroups size query returned 0"@,
        description(SandboxError::TokenGroups, subject, message) == "GetTokenInformation(TokenGroups) failed"@,
        description(SandboxError::TokenGroupsTruncated, subject, message)
            == "GetTokenInformation(TokenGroups) returned a truncated list"@,
        description(SandboxError::LogonSidLength, subject, message) == "GetLengthSid(logon) failed"@,
        description(SandboxError::LogonSidCopy, subject, message) == "CopySid(logon) failed"@,
        description(SandboxError::LogonSidMissing, subject, message) == "Logon SID not present on token"@,
        subject_of(SandboxError::TokenGroupsSize) is Nothing,
        subject_of(SandboxError::TokenGroups) is Nothing,
        subject_of(SandboxError::TokenGroupsTruncated) is Nothing,
        subject_of(SandboxError::LogonSidLength) is Nothing,
        subject_of(SandboxError::LogonSidCopy) is Nothing,
        subject_of(SandboxError::LogonSidMissing) is Nothing,
{
}

/// An error is told with what was being done only in minting the capability SID
/// and in launching the command. All others are told as they are.
pub proof fn law_other_errors_have_no_context(
    error: SandboxError,
    program: Seq<char>,
    subject: Seq<char>,
    message: Seq<char>,
)
    requires
        !(error is InvalidSidString),
        !(error is CreateProcess),
    ensures
        explanation(error, program, subject, message) == description(error, subject, message),
{
    assert(context(error, program) + description(error, subject, message) =~= description(error, subject, message));
}

} // verus!
