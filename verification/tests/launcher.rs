use windows_sandbox::acl::{
    DACL_EDIT_ACCESS, DACL_SECURITY_INFORMATION, FILE_FLAG_BACKUP_SEMANTICS, INHERITANCE, NULL_DEVICE_MASK,
    OPEN_EXISTING, REVOKE_ACCESS, SET_ACCESS, SE_KERNEL_OBJECT, WRITE_ALLOW_MASK,
};
use windows_sandbox::capability::CapabilitySid;
use windows_sandbox::error::SandboxError;
use windows_sandbox::launcher::{exit_code, run, run_sandbox_helper, run_with, Helper, RunOutcome};
use windows_sandbox::policy::SandboxPolicy;
use windows_sandbox::roots::Directory;
use windows_sandbox::token::{GENERIC_ALL, RESTRICTION_FLAGS};
use windows_sandbox::win32::{Call, ExplicitAccess, Next, Payload, Release, Reply, SidRef, Step, Target};

const SID: CapabilitySid = CapabilitySid { a: 1, b: 2, c: 3, d: 4 };

/// What happened, in its order.
#[derive(Debug, PartialEq)]
enum Event {
    Called(Call, Payload),
    Released(Release),
}

/// A system that grants every call but those of the numbers in `failing`.
struct System {
    roots: usize,
    failing: Vec<usize>,
    exit: u32,
    calls: usize,
    fresh: usize,
    held: Vec<Release>,
    events: Vec<Event>,
}

fn reply(code: u32, first: usize, second: usize) -> Reply {
    Reply { code, last_error: 0, first, second, buffer: Vec::new(), address: 0, directories: Vec::new() }
}

fn policy(allow_fs_write: bool) -> SandboxPolicy {
    SandboxPolicy {
        program: "cmd.exe".to_string(),
        args: vec!["/c".to_string(), "exit 3".to_string()],
        writable_directories: vec!["C:\\p".to_string(), "C:\\q".to_string()],
        allow_fs_write,
        allow_network: false,
    }
}

fn wide(text: &str) -> Vec<u16> {
    text.encode_utf16().chain([0]).collect()
}

fn create_process(primary_token: Option<usize>) -> Event {
    Event::Called(
        Call::CreateProcess {
            primary_token,
            application_name: 0,
            process_attributes: 0,
            thread_attributes: 0,
            inherit_handles: 1,
            flags: 0x404,
            environment: 0,
            current_directory: 0,
            startup_flags: 0,
        },
        Payload::Launch { command_line: wide("cmd.exe /c \"exit 3\""), desktop: wide("Winsta0\\Default") },
    )
}

/// A `TOKEN_GROUPS` buffer whose second group stands for the logon session and
/// has its SID at 0xABCD.
fn groups(address: usize) -> Vec<u8> {
    let size = std::mem::size_of::<usize>();
    let mut buffer: Vec<u8> = 3u32.to_le_bytes().to_vec();
    while (address + buffer.len()) % size != 0 {
        buffer.push(0);
    }
    for (sid, attributes) in [(0x1111usize, 7u32), (0xABCD, 0xC000_0007), (0x2222, 0xC000_0000)] {
        buffer.extend(sid.to_le_bytes());
        buffer.extend(attributes.to_le_bytes());
        buffer.resize(buffer.len() + size - 4, 0);
    }
    buffer
}

impl System {
    fn new(roots: usize, failing: &[usize]) -> System {
        System { roots, failing: failing.to_vec(), exit: 3, calls: 0, fresh: 0x100, held: Vec::new(), events: Vec::new() }
    }

    fn handle(&mut self) -> usize {
        self.fresh += 4;
        self.held.push(Release::CloseHandle(self.fresh));
        self.fresh
    }

    fn memory(&mut self) -> usize {
        self.fresh += 4;
        self.held.push(Release::LocalFree(self.fresh));
        self.fresh
    }

    fn answer(&mut self, call: &Call) -> Reply {
        let number = self.calls;
        self.calls += 1;
        if self.failing.contains(&number) {
            return self.refuse(call, 1000 + number as u32);
        }
        match *call {
            Call::CreateFile { .. } | Call::CreateJobObject => reply(0, self.handle(), 0),
            Call::OpenProcessToken { .. } | Call::CreateRestrictedToken { .. } => reply(1, self.handle(), 0),
            Call::GetSecurityInfo { .. } => {
                let descriptor = self.memory();
                reply(0, descriptor + 1, descriptor)
            }
            Call::SetEntriesInAcl { .. } => reply(0, self.memory(), 0),
            Call::SetSecurityInfo { .. } => reply(0, 0, 0),
            Call::ConvertStringSidToSid { .. } => reply(1, self.memory(), 0),
            Call::ResolveRoots => Reply {
                directories: (0..self.roots).map(|first| Directory { exists: true, first }).collect(),
                ..reply(0, 0, 0)
            },
            Call::TokenInformationSize { .. } => reply(0, 100, 0),
            Call::TokenInformation { .. } => {
                Reply { buffer: groups(0x5003), address: 0x5003, ..reply(1, 100, 0) }
            }
            Call::LengthSid { sid } => {
                assert_eq!(sid, 0xABCD);
                reply(28, 0, 0)
            }
            Call::WellKnownSidSize { .. } => reply(0, 12, 0),
            Call::LookupPrivilegeValue => reply(1, 23, 0),
            Call::CreateProcess { .. } => {
                let process = self.handle();
                let thread = self.handle();
                reply(1, process, thread)
            }
            Call::ResumeThread { .. } => reply(1, 0, 0),
            Call::WaitForSingleObject { .. } => reply(0, 0, 0),
            Call::GetExitCodeProcess { .. } => reply(self.exit, 0, 0),
            Call::WarnUnrestricted { .. } => reply(0, 0, 0),
            _ => reply(1, 0, 0),
        }
    }

    fn refuse(&mut self, call: &Call, error: u32) -> Reply {
        let code = match *call {
            Call::GetSecurityInfo { .. } | Call::SetEntriesInAcl { .. } | Call::SetSecurityInfo { .. } => error,
            Call::ResumeThread { .. } => u32::MAX,
            Call::GetExitCodeProcess { preset, .. } => preset,
            _ => 0,
        };
        let first = match *call {
            Call::CreateFile { .. } => usize::MAX,
            _ => 0,
        };
        Reply { last_error: error, ..reply(code, first, 0) }
    }

    fn release(&mut self, releases: Vec<Release>) {
        for release in releases {
            let at = self.held.iter().position(|held| *held == release);
            assert!(at.is_some(), "{release:?} was not held");
            self.held.remove(at.unwrap());
            self.events.push(Event::Released(release));
        }
    }

    fn drive(&mut self, start: Step<Helper, RunOutcome>) -> RunOutcome {
        let mut step = start;
        loop {
            self.release(step.releases);
            match step.next {
                Next::Done(outcome) => return outcome,
                Next::Ask(state, request) => {
                    let answer = self.answer(&request.call);
                    self.events.push(Event::Called(request.call, request.payload));
                    step = state.resume(answer);
                }
            }
        }
    }

    fn calls(&self) -> Vec<Call> {
        let mut calls = Vec::new();
        for event in &self.events {
            if let Event::Called(call, _) = event {
                calls.push(*call);
            }
        }
        calls
    }
}

fn called(call: Call) -> Event {
    Event::Called(call, Payload::Nothing)
}

#[test]
fn unrestricted_command_needs_no_token() {
    let mut system = System::new(2, &[]);
    assert_eq!(system.drive(run_with(policy(true), SID)), Ok(3));
    assert_eq!(
        system.events,
        vec![
            called(Call::CreateJobObject),
            called(Call::SetInformationJobObject { job: 0x104, class: 9, limit_flags: 0x2000 }),
            create_process(None),
            called(Call::AssignProcessToJobObject { job: 0x104, process: 0x108 }),
            called(Call::ResumeThread { thread: 0x10C }),
            called(Call::WaitForSingleObject { handle: 0x108, timeout: u32::MAX }),
            called(Call::GetExitCodeProcess { process: 0x108, preset: 127 }),
            Event::Released(Release::CloseHandle(0x108)),
            Event::Released(Release::CloseHandle(0x10C)),
            Event::Released(Release::CloseHandle(0x104)),
        ]
    );
}

fn edit(handle: usize, mode: i32, sid: usize) -> Vec<Event> {
    let permissions = if mode == SET_ACCESS { WRITE_ALLOW_MASK } else { 0 };
    let descriptor = handle + 4;
    let acl = handle + 8;
    let trustee = windows_sandbox::win32::Trustee { form: 0, kind: 0, sid: SidRef::Pointer(sid) };
    vec![
        called(Call::GetSecurityInfo { handle, object_type: SE_KERNEL_OBJECT, information: DACL_SECURITY_INFORMATION }),
        Event::Called(
            Call::SetEntriesInAcl { old_acl: descriptor + 1 },
            Payload::Entries(vec![ExplicitAccess { permissions, mode, inheritance: INHERITANCE, trustee }]),
        ),
        called(Call::InitializeSecurityDescriptor { revision: 1 }),
        called(Call::SetSecurityDescriptorDacl { present: 1, acl, defaulted: 0 }),
        called(Call::SetKernelObjectSecurity { handle, information: DACL_SECURITY_INFORMATION }),
        Event::Released(Release::LocalFree(acl)),
        Event::Released(Release::LocalFree(descriptor)),
        Event::Released(Release::CloseHandle(handle)),
    ]
}

fn open_root(root: usize) -> Event {
    called(Call::CreateFile {
        target: Target::Root(root),
        access: DACL_EDIT_ACCESS,
        share: 7,
        disposition: OPEN_EXISTING,
        flags: FILE_FLAG_BACKUP_SEMANTICS,
    })
}

#[test]
fn restricted_command_goes_through_every_step() {
    let mut system = System::new(2, &[]);
    assert_eq!(system.drive(run_with(policy(false), SID)), Ok(3));
    let sid = 0x108;
    let base = 0x10C;
    let token = 0x110;
    let trustee = |sid: SidRef| windows_sandbox::win32::Trustee { form: 0, kind: 0, sid };
    let full = |sid: SidRef| ExplicitAccess { permissions: GENERIC_ALL, mode: 1, inheritance: 0, trustee: trustee(sid) };
    let mut expected = vec![
        called(Call::CreateJobObject),
        called(Call::SetInformationJobObject { job: 0x104, class: 9, limit_flags: 0x2000 }),
        Event::Called(Call::ConvertStringSidToSid { capability: SID }, Payload::Text(wide("S-1-5-21-1-2-3-4"))),
        Event::Called(Call::ResolveRoots, Payload::Directories(policy(false).writable_directories)),
        called(Call::OpenProcessToken { access: 0x1AB }),
        called(Call::TokenInformationSize { token: base, class: 2 }),
        called(Call::TokenInformation { token: base, class: 2, size: 100 }),
        called(Call::LengthSid { sid: 0xABCD }),
        called(Call::CopySid { length: 28, sid: 0xABCD }),
        called(Call::WellKnownSidSize { kind: 1 }),
        called(Call::CreateWellKnownSid { kind: 1, size: 12 }),
        called(Call::CreateRestrictedToken {
            base,
            flags: RESTRICTION_FLAGS,
            disabled_sids: 0,
            deleted_privileges: 0,
            sids: windows_sandbox::win32::RestrictingSids {
                first: SidRef::Pointer(sid),
                second: SidRef::Logon,
                third: SidRef::Everyone,
            },
        }),
        Event::Called(
            Call::SetEntriesInAcl { old_acl: 0 },
            Payload::Entries(vec![full(SidRef::Logon), full(SidRef::Everyone), full(SidRef::Pointer(sid))]),
        ),
        called(Call::SetTokenDefaultDacl { token, class: 6, acl: 0x114 }),
        Event::Released(Release::LocalFree(0x114)),
        Event::Called(Call::LookupPrivilegeValue, Payload::Text(wide("SeChangeNotifyPrivilege"))),
        called(Call::AdjustTokenPrivileges { token, disable_all: 0, low: 23, high: 0, attributes: 2 }),
        called(Call::CreateFile {
            target: Target::NullDevice,
            access: DACL_EDIT_ACCESS,
            share: 3,
            disposition: OPEN_EXISTING,
            flags: 0x80,
        }),
        called(Call::GetSecurityInfo {
            handle: 0x118,
            object_type: SE_KERNEL_OBJECT,
            information: DACL_SECURITY_INFORMATION,
        }),
        Event::Called(
            Call::SetEntriesInAcl { old_acl: 0x11D },
            Payload::Entries(vec![ExplicitAccess {
                permissions: NULL_DEVICE_MASK,
                mode: SET_ACCESS,
                inheritance: 0,
                trustee: trustee(SidRef::Pointer(sid)),
            }]),
        ),
        called(Call::SetSecurityInfo {
            handle: 0x118,
            object_type: SE_KERNEL_OBJECT,
            information: DACL_SECURITY_INFORMATION,
            acl: 0x120,
        }),
        Event::Released(Release::LocalFree(0x120)),
        Event::Released(Release::LocalFree(0x11C)),
        Event::Released(Release::CloseHandle(0x118)),
    ];
    expected.push(open_root(0));
    expected.extend(edit(0x124, SET_ACCESS, sid));
    expected.push(open_root(1));
    expected.extend(edit(0x130, SET_ACCESS, sid));
    expected.extend([
        Event::Released(Release::CloseHandle(base)),
        create_process(Some(token)),
        called(Call::AssignProcessToJobObject { job: 0x104, process: 0x13C }),
        called(Call::ResumeThread { thread: 0x140 }),
        called(Call::WaitForSingleObject { handle: 0x13C, timeout: u32::MAX }),
        called(Call::GetExitCodeProcess { process: 0x13C, preset: 127 }),
        Event::Released(Release::CloseHandle(token)),
    ]);
    expected.push(open_root(0));
    expected.extend(edit(0x144, REVOKE_ACCESS, sid));
    expected.push(open_root(1));
    expected.extend(edit(0x150, REVOKE_ACCESS, sid));
    expected.extend([
        Event::Released(Release::LocalFree(sid)),
        Event::Released(Release::CloseHandle(0x13C)),
        Event::Released(Release::CloseHandle(0x140)),
        Event::Released(Release::CloseHandle(0x104)),
    ]);
    assert_eq!(system.events, expected);
}

#[test]
fn nothing_leaks_whatever_fails() {
    for allow_fs_write in [false, true] {
        for first in 0..60 {
            for second in [first, first + 1, first + 7] {
                let mut system = System::new(2, &[first, second]);
                let _ = system.drive(run_with(policy(allow_fs_write), SID));
                assert_eq!(system.held, Vec::new());
            }
        }
    }
}

#[test]
fn runs_make_no_more_calls_than_their_limit() {
    for roots in 0..4 {
        let mut system = System::new(roots, &[]);
        let _ = system.drive(run_with(policy(false), SID));
        assert_eq!(system.calls, 25 + 12 * roots);
    }
}

#[test]
fn command_runs_only_inside_the_job() {
    for failing in 0..60 {
        let mut system = System::new(2, &[failing]);
        let outcome = system.drive(run_with(policy(false), SID));
        let calls = system.calls();
        let resumed = calls.iter().position(|call| matches!(call, Call::ResumeThread { .. }));
        match resumed {
            Some(at) => {
                assert!(matches!(calls[at - 1], Call::AssignProcessToJobObject { job: 0x104, .. }));
                assert!(matches!(calls[at - 2], Call::CreateProcess { flags: 0x404, .. }));
                assert!(failing != at - 1 && failing != at - 2 && failing > 1);
            }
            None => assert!(outcome.is_err()),
        }
        if failing > 1 {
            assert_eq!(system.events.last(), Some(&Event::Released(Release::CloseHandle(0x104))));
        }
    }
}

/// Which roots are granted at the end, by the edits whose last call succeeded.
fn dacls_after(system: &System) -> Vec<bool> {
    let mut granted = vec![false; system.roots];
    let mut root = None;
    let mut mode = 0;
    let mut number = 0;
    for event in &system.events {
        if let Event::Called(call, payload) = event {
            match (call, payload) {
                (Call::CreateFile { target: Target::Root(opened), .. }, _) => root = Some(*opened),
                (Call::SetEntriesInAcl { .. }, Payload::Entries(entries)) => mode = entries[0].mode,
                (Call::SetKernelObjectSecurity { .. }, _) if !system.failing.contains(&number) => {
                    granted[root.unwrap()] = mode == SET_ACCESS;
                }
                _ => {}
            }
            number += 1;
        }
    }
    granted
}

#[test]
fn failed_grant_takes_back_the_ones_before() {
    let mut system = System::new(3, &[32]);
    assert_eq!(system.drive(run_with(policy(false), SID)), Ok(3));
    let roots: Vec<usize> = system
        .calls()
        .iter()
        .filter_map(|call| match call {
            Call::CreateFile { target: Target::Root(root), .. } => Some(*root),
            _ => None,
        })
        .collect();
    assert_eq!(roots, vec![0, 1, 2, 0, 1]);
    assert_eq!(dacls_after(&system), vec![false, false, false]);
    assert_eq!(warning_of(&system), SandboxError::CreateFile { root: 2, last_error: 1032 });
    let released: Vec<&Event> = system
        .events
        .iter()
        .skip_while(|event| !matches!(event, Event::Called(Call::CreateFile { target: Target::Root(2), .. }, _)))
        .filter(|event| matches!(event, Event::Released(_)))
        .take(2)
        .collect();
    assert_eq!(
        released,
        vec![&Event::Released(Release::CloseHandle(0x110)), &Event::Released(Release::CloseHandle(0x10C))]
    );
}

#[test]
fn no_grant_outlives_a_run_whose_revocations_succeed() {
    for failing in 0..33 {
        let mut system = System::new(2, &[failing]);
        let _ = system.drive(run_with(policy(false), SID));
        assert_eq!(dacls_after(&system), vec![false, false]);
    }
}

#[test]
fn failed_restriction_only_warns() {
    for failing in 2..32 {
        let mut system = System::new(2, &[failing]);
        assert_eq!(system.drive(run_with(policy(false), SID)), Ok(3));
        let calls = system.calls();
        let spawned = calls.iter().position(|call| matches!(call, Call::CreateProcess { .. })).unwrap();
        let warned = matches!(calls[spawned - 1], Call::WarnUnrestricted { .. });
        let unrestricted = matches!(calls[spawned], Call::CreateProcess { primary_token: None, .. });
        assert_eq!(warned, unrestricted);
        // Resolving the roots cannot fail, the size queries are not looked at,
        // and the null device is granted at best effort.
        let harmless = [3, 9].contains(&failing) || (16..20).contains(&failing);
        assert_eq!(warned, !harmless);
        if warned {
            assert!(!calls[spawned..].iter().any(|call| matches!(call, Call::CreateFile { .. })));
            assert!(!dacls_after(&system).contains(&true));
        }
    }
}

fn warning(failing: usize) -> SandboxError {
    let mut system = System::new(2, &[failing]);
    let _ = system.drive(run_with(policy(false), SID));
    warning_of(&system)
}

fn warning_of(system: &System) -> SandboxError {
    for call in system.calls() {
        if let Call::WarnUnrestricted { error } = call {
            return error;
        }
    }
    panic!("nothing was refused")
}

#[test]
fn each_failure_of_the_restriction_has_its_error() {
    assert_eq!(warning(2), SandboxError::InvalidSidString);
    assert_eq!(warning(4), SandboxError::OpenProcessToken { last_error: 1004 });
    assert_eq!(warning(5), SandboxError::TokenGroupsSize);
    assert_eq!(warning(6), SandboxError::TokenGroups);
    assert_eq!(warning(7), SandboxError::LogonSidLength);
    assert_eq!(warning(8), SandboxError::LogonSidCopy);
    assert_eq!(warning(10), SandboxError::CreateWellKnownSid { last_error: 1010 });
    assert_eq!(warning(11), SandboxError::CreateRestrictedToken { last_error: 1011 });
    assert_eq!(warning(12), SandboxError::DefaultDaclEntries { code: 1012 });
    assert_eq!(warning(13), SandboxError::SetTokenDefaultDacl { last_error: 1013 });
    assert_eq!(warning(14), SandboxError::LookupPrivilegeValue { last_error: 1014 });
    assert_eq!(warning(15), SandboxError::AdjustTokenPrivileges { last_error: 1015 });
    assert_eq!(warning(20), SandboxError::CreateFile { root: 0, last_error: 1020 });
    assert_eq!(warning(27), SandboxError::GetSecurityInfo { root: 1, code: 1027 });
    assert_eq!(warning(28), SandboxError::SetEntriesInAcl { root: 1, code: 1028 });
    assert_eq!(warning(29), SandboxError::InitializeSecurityDescriptor { last_error: 1029 });
    assert_eq!(warning(30), SandboxError::SetSecurityDescriptorDacl { last_error: 1030 });
    assert_eq!(warning(31), SandboxError::SetKernelObjectSecurity { root: 1, last_error: 1031 });
}

fn outcome(allow_fs_write: bool, failing: usize) -> RunOutcome {
    System::new(2, &[failing]).drive(run_with(policy(allow_fs_write), SID))
}

#[test]
fn run_fails_without_job_or_launch() {
    assert_eq!(outcome(false, 0), Err(SandboxError::CreateJobObject { last_error: 1000 }));
    assert_eq!(outcome(false, 1), Err(SandboxError::SetInformationJobObject { last_error: 1001 }));
    assert_eq!(outcome(true, 2), Err(SandboxError::CreateProcess { last_error: 1002 }));
    assert_eq!(outcome(true, 3), Err(SandboxError::AssignProcessToJobObject { last_error: 1003 }));
    assert_eq!(outcome(true, 4), Err(SandboxError::ResumeThread { last_error: 1004 }));
    assert_eq!(outcome(true, 5), Ok(3));
    assert_eq!(outcome(true, 6), Ok(127));
}

#[test]
fn grants_are_revoked_whatever_the_launch_comes_to() {
    for failing in 32..60 {
        let mut system = System::new(2, &[failing]);
        let _ = system.drive(run_with(policy(false), SID));
        let calls = system.calls();
        let spawned = calls.iter().position(|call| matches!(call, Call::CreateProcess { .. })).unwrap();
        for root in 0..2 {
            let opened = |call: &Call| matches!(call, Call::CreateFile { target: Target::Root(r), .. } if *r == root);
            assert_eq!(calls[..spawned].iter().filter(|call| opened(call)).count(), 1);
            assert_eq!(calls[spawned..].iter().filter(|call| opened(call)).count(), 1);
        }
    }
}

#[test]
fn token_is_closed_late_if_the_command_did_not_run() {
    let mut system = System::new(1, &[27]);
    assert_eq!(system.drive(run_with(policy(false), SID)), Err(SandboxError::AssignProcessToJobObject { last_error: 1027 }));
    let released: Vec<usize> = system
        .events
        .iter()
        .skip_while(|event| !matches!(event, Event::Called(Call::AssignProcessToJobObject { .. }, _)))
        .filter_map(|event| match event {
            Event::Released(Release::CloseHandle(handle)) => Some(*handle),
            _ => None,
        })
        .collect();
    assert_eq!(released, vec![0x130, 0x134, 0x138, 0x110, 0x104]);
}

#[test]
fn exit_code_keeps_its_bits() {
    assert_eq!(exit_code(0), 0);
    assert_eq!(exit_code(127), 127);
    assert_eq!(exit_code(0x7FFF_FFFF), i32::MAX);
    assert_eq!(exit_code(0x8000_0000), i32::MIN);
    assert_eq!(exit_code(0xC000_0142), -1073741502);
    assert_eq!(exit_code(u32::MAX), -1);
}

#[test]
fn helper_exits_with_the_commands_code_or_its_own() {
    assert_eq!(run_sandbox_helper(Ok(-1)), -1);
    assert_eq!(run_sandbox_helper(Ok(0)), 0);
    assert_eq!(run_sandbox_helper(Err(SandboxError::ResumeThread { last_error: 5 })), 127);
}

#[test]
fn each_run_mints_its_own_capability() {
    let mut texts = Vec::new();
    for _ in 0..3 {
        let mut system = System::new(0, &[]);
        assert_eq!(system.drive(run(Ok(policy(false)))), Ok(3));
        match system.calls()[2] {
            Call::ConvertStringSidToSid { capability } => texts.push(capability.text()),
            _ => panic!("no capability"),
        }
    }
    assert_ne!(texts[0], texts[1]);
    assert_ne!(texts[1], texts[2]);
    assert_eq!(SID.text(), "S-1-5-21-1-2-3-4");
    assert_eq!(CapabilitySid { a: 0, b: 4294967295, c: 10, d: 907 }.text(), "S-1-5-21-0-4294967295-10-907");
}

#[test]
fn only_roots_are_edited_and_only_for_the_capability() {
    for allow_fs_write in [false, true] {
        let mut system = System::new(3, &[]);
        assert_eq!(system.drive(run_with(policy(allow_fs_write), SID)), Ok(3));
        let mut edited = Vec::new();
        for event in &system.events {
            if let Event::Called(Call::CreateFile { target: Target::Root(root), .. }, _) = event {
                edited.push(*root);
            }
            if let Event::Called(Call::SetEntriesInAcl { old_acl }, Payload::Entries(entries)) = event {
                if *old_acl != 0 {
                    assert_eq!(entries.len(), 1);
                    assert_eq!(entries[0].trustee.sid, SidRef::Pointer(0x108));
                }
            }
        }
        assert_eq!(edited, if allow_fs_write { vec![] } else { vec![0, 1, 2, 0, 1, 2] });
    }
}

#[test]
fn different_capabilities_have_different_texts() {
    let digits = [0, 1, 2, 11, 12, 112, 1211];
    let mut texts = Vec::new();
    for a in digits {
        for b in digits {
            for c in digits {
                texts.push(CapabilitySid { a, b, c, d: 1 }.text());
            }
        }
    }
    let count = texts.len();
    texts.sort();
    texts.dedup();
    assert_eq!(texts.len(), count);
}

#[test]
fn without_a_policy_nothing_is_called() {
    for error in [SandboxError::ReadPolicy, SandboxError::ParsePolicy] {
        let mut system = System::new(2, &[]);
        let outcome = system.drive(run(Err(error)));
        assert_eq!(outcome, Err(error));
        assert!(system.events.is_empty());
        assert_eq!(run_sandbox_helper(outcome), 127);
    }
}

#[test]
fn repeated_and_missing_directories_are_no_roots() {
    let mut step = run_with(policy(false), SID);
    let mut system = System::new(0, &[]);
    let mut opened = Vec::new();
    loop {
        match step.next {
            Next::Done(outcome) => {
                assert_eq!(outcome, Ok(3));
                break;
            }
            Next::Ask(state, request) => {
                let mut answer = system.answer(&request.call);
                if let Call::ResolveRoots = request.call {
                    answer.directories = vec![
                        Directory { exists: true, first: 0 },
                        Directory { exists: false, first: 1 },
                        Directory { exists: true, first: 0 },
                        Directory { exists: true, first: 3 },
                    ];
                }
                if let Call::CreateFile { target: Target::Root(root), .. } = request.call {
                    opened.push(root);
                }
                step = state.resume(answer);
            }
        }
    }
    assert_eq!(opened, vec![0, 3, 0, 3]);
}

#[test]
fn token_is_readied_before_every_restricted_launch() {
    let mut system = System::new(1, &[]);
    assert_eq!(system.drive(run_with(policy(false), SID)), Ok(3));
    let calls = system.calls();
    let launched = calls.iter().position(|call| matches!(call, Call::CreateProcess { .. })).unwrap();
    let before = &calls[..launched];
    assert!(before.contains(&Call::SetTokenDefaultDacl { token: 0x110, class: 6, acl: 0x114 }));
    let adjusted = Call::AdjustTokenPrivileges { token: 0x110, disable_all: 0, low: 23, high: 0, attributes: 2 };
    assert!(before.contains(&adjusted));
    assert!(before.iter().any(|call| matches!(call, Call::CreateFile { target: Target::NullDevice, .. })));
}
