use windows_sandbox::acl::{
    add_allow_write_ace, allow_null_device, modify_dacl_no_propagate, revoke_ace, trustee_for_sid, DaclEdit, DaclOutcome,
    GRANT_ACCESS, INHERITANCE, REVOKE_ACCESS, SET_ACCESS, WRITE_ALLOW_MASK,
};
use windows_sandbox::error::SandboxError;
use windows_sandbox::job::{assigned, KillOnCloseJob};
use windows_sandbox::process::{resumed, spawn_suspended, spawned, SpawnedChild};
use windows_sandbox::token::{
    create_write_restricted_token, enable_single_privilege, get_logon_sid_bytes, open_current_process_token,
    opened_process_token, set_default_dacl, world_sid, LocalSid, OwnedHandle,
};
use windows_sandbox::token_groups::{find_logon_sid, LogonSearch};
use windows_sandbox::win32::{Call, ExplicitAccess, Next, Payload, Release, Reply, SidRef, Step};

fn reply(code: u32, first: usize, second: usize) -> Reply {
    Reply { code, last_error: 9, first, second, buffer: Vec::new(), address: 0, directories: Vec::new() }
}

fn asked<S, T>(step: Step<S, T>) -> (S, Call, Payload) {
    assert!(step.releases.is_empty());
    match step.next {
        Next::Ask(state, request) => (state, request.call, request.payload),
        Next::Done(_) => panic!("no call"),
    }
}

fn done<S, T>(step: Step<S, T>) -> (Vec<Release>, T) {
    match step.next {
        Next::Ask(..) => panic!("a call"),
        Next::Done(outcome) => (step.releases, outcome),
    }
}

/// Runs an edit up to the merging of its entry, which is what it returns.
fn merged_entry(start: Step<DaclEdit, DaclOutcome>) -> ExplicitAccess {
    let (state, _, _) = asked(start);
    let (state, _, _) = asked(state.resume(&reply(0, 8, 0)));
    let (_, call, payload) = asked(state.resume(&reply(0, 16, 24)));
    assert_eq!(call, Call::SetEntriesInAcl { old_acl: 16 });
    match payload {
        Payload::Entries(entries) => {
            assert_eq!(entries.len(), 1);
            entries[0]
        }
        _ => panic!("no entries"),
    }
}

#[test]
fn entries_of_the_edits() {
    let sid = SidRef::Pointer(7);
    let trustee = trustee_for_sid(sid);
    assert_eq!((trustee.form, trustee.kind, trustee.sid), (0, 0, sid));
    let grant = ExplicitAccess { permissions: WRITE_ALLOW_MASK, mode: SET_ACCESS, inheritance: INHERITANCE, trustee };
    assert_eq!(merged_entry(add_allow_write_ace(0, sid)), grant);
    let revocation = ExplicitAccess { permissions: 0, mode: REVOKE_ACCESS, inheritance: INHERITANCE, trustee };
    assert_eq!(merged_entry(revoke_ace(0, sid)), revocation);
    let other = ExplicitAccess { permissions: 5, mode: GRANT_ACCESS, inheritance: 0, trustee };
    assert_eq!(merged_entry(modify_dacl_no_propagate(3, other)), other);
    assert_eq!(WRITE_ALLOW_MASK, 0x1301FF);
}

#[test]
fn edit_takes_neither_kind_of_bad_handle() {
    for handle in [0, usize::MAX] {
        let (state, _, _) = asked(add_allow_write_ace(4, SidRef::Pointer(7)));
        let (releases, outcome) = done(state.resume(&reply(0, handle, 0)));
        assert!(releases.is_empty());
        assert_eq!(outcome, Err(SandboxError::CreateFile { root: 4, last_error: 9 }));
        let (state, _, _) = asked(allow_null_device(SidRef::Pointer(7)));
        assert!(done(state.resume(&reply(0, handle, 0))).0.is_empty());
    }
}

#[test]
fn edit_frees_what_a_failed_merge_filled_in() {
    let (state, _, _) = asked(add_allow_write_ace(4, SidRef::Pointer(7)));
    let (state, _, _) = asked(state.resume(&reply(0, 8, 0)));
    let (state, _, _) = asked(state.resume(&reply(0, 16, 24)));
    let (releases, outcome) = done(state.resume(&reply(87, 32, 0)));
    assert_eq!(releases, vec![Release::LocalFree(32), Release::LocalFree(24), Release::CloseHandle(8)]);
    assert_eq!(outcome, Err(SandboxError::SetEntriesInAcl { root: 4, code: 87 }));
}

#[test]
fn null_device_is_granted_at_best_effort() {
    let (state, _, _) = asked(allow_null_device(SidRef::Pointer(7)));
    let (state, _, _) = asked(state.resume(&reply(0, 8, 0)));
    assert_eq!(done(state.resume(&reply(5, 0, 24))).0, vec![Release::LocalFree(24), Release::CloseHandle(8)]);
    let (state, _, _) = asked(allow_null_device(SidRef::Pointer(7)));
    let (state, _, _) = asked(state.resume(&reply(0, 8, 0)));
    let (state, _, _) = asked(state.resume(&reply(0, 16, 24)));
    assert_eq!(done(state.resume(&reply(5, 0, 0))).0, vec![Release::LocalFree(24), Release::CloseHandle(8)]);
}

#[test]
fn handles_and_sids_release_what_is_not_null() {
    let mut releases = Vec::new();
    let handle = OwnedHandle::new(8);
    assert_eq!(handle.raw(), 8);
    handle.release(&mut releases);
    OwnedHandle::new(0).release(&mut releases);
    let sid = LocalSid::from_string(&reply(1, 16, 0)).unwrap();
    assert_eq!(sid.as_ptr(), 16);
    sid.release(&mut releases);
    assert_eq!(releases, vec![Release::CloseHandle(8), Release::LocalFree(16)]);
    assert_eq!(LocalSid::from_string(&reply(0, 16, 0)).unwrap_err(), SandboxError::InvalidSidString);
    assert_eq!(LocalSid::from_string(&reply(1, 0, 0)).unwrap_err(), SandboxError::InvalidSidString);
}

#[test]
fn own_token_is_opened_with_its_rights() {
    assert_eq!(open_current_process_token(), Call::OpenProcessToken { access: 0x1AB });
    assert_eq!(opened_process_token(&reply(1, 8, 0)).unwrap().raw(), 8);
    assert_eq!(opened_process_token(&reply(0, 8, 0)).unwrap_err(), SandboxError::OpenProcessToken { last_error: 9 });
}

#[test]
fn default_access_list_needs_identifiers() {
    let (releases, outcome) = done(set_default_dacl(8, &Vec::new()));
    assert!(releases.is_empty());
    assert_eq!(outcome, Ok(()));
    let (state, call, payload) = asked(set_default_dacl(8, &vec![SidRef::Everyone]));
    assert_eq!(call, Call::SetEntriesInAcl { old_acl: 0 });
    let trustee = trustee_for_sid(SidRef::Everyone);
    let entry = ExplicitAccess { permissions: 0x1000_0000, mode: GRANT_ACCESS, inheritance: 0, trustee };
    assert_eq!(payload, Payload::Entries(vec![entry]));
    let (state, call, _) = asked(state.resume(&reply(0, 16, 0)));
    assert_eq!(call, Call::SetTokenDefaultDacl { token: 8, class: 6, acl: 16 });
    let (releases, outcome) = done(state.resume(&reply(0, 0, 0)));
    assert_eq!(releases, vec![Release::LocalFree(16)]);
    assert_eq!(outcome, Err(SandboxError::SetTokenDefaultDacl { last_error: 9 }));
}

#[test]
fn parts_of_the_token_start_with_their_calls() {
    assert_eq!(asked(get_logon_sid_bytes(8)).1, Call::TokenInformationSize { token: 8, class: 2 });
    assert_eq!(asked(create_write_restricted_token(8, 16)).1, Call::TokenInformationSize { token: 8, class: 2 });
    let (state, call, _) = asked(world_sid());
    assert_eq!(call, Call::WellKnownSidSize { kind: 1 });
    assert_eq!(asked(state.resume(&reply(0, 12, 0))).1, Call::CreateWellKnownSid { kind: 1, size: 12 });
    let (state, call, payload) = asked(enable_single_privilege(8, "SeDebugPrivilege"));
    assert_eq!(call, Call::LookupPrivilegeValue);
    assert_eq!(payload, Payload::Text("SeDebugPrivilege\0".encode_utf16().collect()));
    let adjust = Call::AdjustTokenPrivileges { token: 8, disable_all: 0, low: 23, high: 1, attributes: 2 };
    assert_eq!(asked(state.resume(&reply(1, 23, 1))).1, adjust);
}

fn group_buffer(address: usize, groups: &[(usize, u32)]) -> Vec<u8> {
    let size = std::mem::size_of::<usize>();
    let mut buffer: Vec<u8> = (groups.len() as u32).to_le_bytes().to_vec();
    while (address + buffer.len()) % size != 0 {
        buffer.push(0xEE);
    }
    for (sid, attributes) in groups {
        buffer.extend(sid.to_le_bytes());
        buffer.extend(attributes.to_le_bytes());
        buffer.resize(buffer.len() + size - 4, 0xEE);
    }
    buffer
}

#[test]
fn first_logon_group_is_found() {
    for address in 0x7000..0x7010 {
        let groups = [(1, 0x8000_0007), (2, 0x4000_0000), (3, 0xC000_0000), (4, 0xFFFF_FFFF)];
        let buffer = group_buffer(address, &groups);
        assert_eq!(find_logon_sid(&buffer, address), LogonSearch::Found(3));
        assert_eq!(find_logon_sid(&group_buffer(address, &groups[..2]), address), LogonSearch::Absent);
        assert_eq!(find_logon_sid(&group_buffer(address, &[]), address), LogonSearch::Absent);
        let mut short = group_buffer(address, &groups[..2]);
        short.pop();
        assert_eq!(find_logon_sid(&short, address), LogonSearch::Truncated);
    }
    assert_eq!(find_logon_sid(&vec![0, 0, 0], 0), LogonSearch::Truncated);
}

#[test]
fn bad_groups_end_the_reading() {
    let (state, _, _) = asked(get_logon_sid_bytes(8));
    let (state, _, _) = asked(state.resume(&reply(0, 40, 0)));
    assert_eq!(done(state.resume(&reply(1, 3, 0))).1, Err(SandboxError::TokenGroups));
    let answer = |buffer: Vec<u8>| Reply { buffer, address: 0x7000, ..reply(1, 40, 0) };
    let (state, _, _) = asked(get_logon_sid_bytes(8));
    let (state, _, _) = asked(state.resume(&reply(0, 40, 0)));
    let absent = group_buffer(0x7000, &[(1, 7)]);
    assert_eq!(done(state.resume(&answer(absent))).1, Err(SandboxError::LogonSidMissing));
    let (state, _, _) = asked(get_logon_sid_bytes(8));
    let (state, _, _) = asked(state.resume(&reply(0, 40, 0)));
    let mut short = group_buffer(0x7000, &[(1, 7)]);
    short.pop();
    assert_eq!(done(state.resume(&answer(short))).1, Err(SandboxError::TokenGroupsTruncated));
}

#[test]
fn job_kills_on_close() {
    let (state, call, _) = asked(KillOnCloseJob::new());
    assert_eq!(call, Call::CreateJobObject);
    let (state, call, _) = asked(state.resume(&reply(0, 8, 0)));
    assert_eq!(call, Call::SetInformationJobObject { job: 8, class: 9, limit_flags: 0x2000 });
    let (releases, outcome) = done(state.resume(&reply(1, 0, 0)));
    assert!(releases.is_empty());
    assert_eq!(outcome.unwrap().assign(16), Call::AssignProcessToJobObject { job: 8, process: 16 });
    assert_eq!(assigned(&reply(1, 0, 0)), Ok(()));
    assert_eq!(assigned(&reply(0, 0, 0)), Err(SandboxError::AssignProcessToJobObject { last_error: 9 }));
}

#[test]
fn child_is_spawned_suspended() {
    let argv = vec!["a b".to_string(), "c".to_string()];
    for primary_token in [Some(8), None] {
        let launch = spawn_suspended(primary_token, &argv);
        assert_eq!(
            launch.call,
            Call::CreateProcess {
                primary_token,
                application_name: 0,
                process_attributes: 0,
                thread_attributes: 0,
                inherit_handles: 1,
                flags: 0x404,
                environment: 0,
                current_directory: 0,
                startup_flags: 0,
            }
        );
        let command_line: Vec<u16> = "\"a b\" c\0".encode_utf16().collect();
        let desktop: Vec<u16> = "Winsta0\\Default\0".encode_utf16().collect();
        assert_eq!(launch.payload, Payload::Launch { command_line, desktop });
    }
    let child = spawned(&reply(1, 16, 24)).unwrap();
    assert_eq!(child, SpawnedChild { process: OwnedHandle::new(16), thread: OwnedHandle::new(24) });
    assert_eq!(child.process(), 16);
    assert_eq!(child.resume(), Call::ResumeThread { thread: 24 });
    assert_eq!(spawned(&reply(0, 16, 24)).unwrap_err(), SandboxError::CreateProcess { last_error: 9 });
    assert_eq!(resumed(&reply(0, 0, 0)), Ok(()));
    assert_eq!(resumed(&reply(u32::MAX, 0, 0)), Err(SandboxError::ResumeThread { last_error: 9 }));
}

#[test]
fn failed_query_leaves_only_the_handle_to_close() {
    let (state, _, _) = asked(revoke_ace(4, SidRef::Pointer(7)));
    let (state, _, _) = asked(state.resume(&reply(0, 8, 0)));
    let (releases, outcome) = done(state.resume(&reply(5, 0, 24)));
    assert_eq!(releases, vec![Release::CloseHandle(8)]);
    assert_eq!(outcome, Err(SandboxError::GetSecurityInfo { root: 4, code: 5 }));
}
