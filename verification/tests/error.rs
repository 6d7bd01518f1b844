use windows_sandbox::error::{failure_line, warning_line, SandboxError, Subject};

fn told(error: SandboxError) -> String {
    error.describe("SUBJECT", "MESSAGE")
}

#[test]
fn errors_with_a_root_name_its_path() {
    assert_eq!(
        told(SandboxError::CreateFile { root: 3, last_error: 5 }),
        "CreateFileW failed for SUBJECT: 5"
    );
    assert_eq!(told(SandboxError::GetSecurityInfo { root: 3, code: 6 }), "GetSecurityInfo failed for SUBJECT: 6");
    assert_eq!(told(SandboxError::SetEntriesInAcl { root: 3, code: 87 }), "SetEntriesInAclW failed for SUBJECT: 87");
    assert_eq!(
        told(SandboxError::SetKernelObjectSecurity { root: 3, last_error: 0 }),
        "SetKernelObjectSecurity failed for SUBJECT: 0"
    );
}

#[test]
fn errors_with_a_code_name_the_call() {
    let last_error = 1314;
    let cases = [
        (SandboxError::InitializeSecurityDescriptor { last_error }, "InitializeSecurityDescriptor failed: 1314"),
        (SandboxError::SetSecurityDescriptorDacl { last_error }, "SetSecurityDescriptorDacl failed: 1314"),
        (SandboxError::OpenProcessToken { last_error }, "OpenProcessToken failed: 1314"),
        (SandboxError::CreateWellKnownSid { last_error }, "CreateWellKnownSid failed: 1314"),
        (SandboxError::CreateRestrictedToken { last_error }, "CreateRestrictedToken failed: 1314"),
        (SandboxError::DefaultDaclEntries { code: 1314 }, "SetEntriesInAclW failed: 1314"),
        (SandboxError::SetTokenDefaultDacl { last_error }, "SetTokenInformation(TokenDefaultDacl) failed: 1314"),
        (SandboxError::LookupPrivilegeValue { last_error }, "LookupPrivilegeValueW failed: 1314"),
        (SandboxError::AdjustTokenPrivileges { last_error }, "AdjustTokenPrivileges failed: 1314"),
        (SandboxError::CreateJobObject { last_error }, "CreateJobObjectW failed: 1314"),
        (SandboxError::SetInformationJobObject { last_error }, "SetInformationJobObject failed: 1314"),
        (SandboxError::AssignProcessToJobObject { last_error }, "AssignProcessToJobObject failed: 1314"),
        (SandboxError::ResumeThread { last_error }, "ResumeThread failed: 1314"),
    ];
    for (error, text) in cases {
        assert_eq!(told(error), text);
    }
}

#[test]
fn other_errors_have_their_texts() {
    assert_eq!(told(SandboxError::InvalidSidString), "invalid SID string: SUBJECT");
    assert_eq!(told(SandboxError::TokenGroupsSize), "TokenGroups size query returned 0");
    assert_eq!(told(SandboxError::TokenGroups), "GetTokenInformation(TokenGroups) failed");
    assert_eq!(
        told(SandboxError::TokenGroupsTruncated),
        "GetTokenInformation(TokenGroups) returned a truncated list"
    );
    assert_eq!(told(SandboxError::LogonSidLength), "GetLengthSid(logon) failed");
    assert_eq!(told(SandboxError::LogonSidCopy), "CopySid(logon) failed");
    assert_eq!(told(SandboxError::LogonSidMissing), "Logon SID not present on token");
    assert_eq!(
        told(SandboxError::CreateProcess { last_error: 2 }),
        "CreateProcess failed: 2 (MESSAGE) | cmd=SUBJECT"
    );
}

#[test]
fn policy_errors_name_the_file() {
    assert_eq!(told(SandboxError::ReadPolicy), "failed to read sandbox policy SUBJECT: MESSAGE");
    assert_eq!(told(SandboxError::ParsePolicy), "failed to parse sandbox policy SUBJECT: MESSAGE");
}

#[test]
fn explanations_say_what_was_being_done() {
    let explained = |error: SandboxError| error.explain("cmd.exe", "SUBJECT", "MESSAGE");
    assert_eq!(
        explained(SandboxError::CreateProcess { last_error: 2 }),
        "failed to launch sandboxed command: cmd.exe: CreateProcess failed: 2 (MESSAGE) | cmd=SUBJECT"
    );
    assert_eq!(
        explained(SandboxError::InvalidSidString),
        "failed to mint sandbox capability SID: invalid SID string: SUBJECT"
    );
    assert_eq!(explained(SandboxError::ResumeThread { last_error: 6 }), "ResumeThread failed: 6");
}

#[test]
fn lines_for_the_user() {
    assert_eq!(failure_line("WHY"), "zed sandbox helper failed: WHY");
    assert_eq!(
        warning_line("WHY"),
        "zed sandbox helper: filesystem isolation unavailable, running command without write restriction: WHY"
    );
}

#[test]
fn errors_have_their_subjects() {
    let last_error = 5;
    assert_eq!(SandboxError::CreateFile { root: 3, last_error }.subject(), Subject::Root(3));
    assert_eq!(SandboxError::GetSecurityInfo { root: 4, code: 1 }.subject(), Subject::Root(4));
    assert_eq!(SandboxError::SetEntriesInAcl { root: 5, code: 1 }.subject(), Subject::Root(5));
    assert_eq!(SandboxError::SetKernelObjectSecurity { root: 6, last_error }.subject(), Subject::Root(6));
    assert_eq!(SandboxError::InvalidSidString.subject(), Subject::Sid);
    assert_eq!(SandboxError::CreateProcess { last_error }.subject(), Subject::CommandLine);
    assert_eq!(SandboxError::ReadPolicy.subject(), Subject::PolicyFile);
    assert_eq!(SandboxError::ParsePolicy.subject(), Subject::PolicyFile);
    assert_eq!(SandboxError::ResumeThread { last_error }.subject(), Subject::Nothing);
    assert_eq!(SandboxError::CreateProcess { last_error }.described_code(), Some(5));
    assert_eq!(SandboxError::ResumeThread { last_error }.described_code(), None);
}
