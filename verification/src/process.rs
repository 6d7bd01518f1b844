//! Child-process creation for the sandbox helper.
//!
//! The child is the helper's child, so it inherits the helper's console. It is
//! created suspended so it can be assigned to the kill-on-close Job object
//! before it runs, and then resumed.

use vstd::prelude::*;

use crate::command_line::{
    argv_to_command_line, command_line, law_command_line_is_read_back, readable_program, split_command_line, texts,
};
use crate::error::SandboxError;
use crate::token::{Outcome, OwnedHandle};
use crate::win32::{Call, Payload, PayloadView, Reply, Request, RequestView};
use crate::winutil::{law_wide_text_is_read_back, to_wide, utf16, utf16_lossy};

verus! {

pub const CREATE_SUSPENDED: u32 = 0x4;

pub const CREATE_UNICODE_ENVIRONMENT: u32 = 0x400;

/// How the child is created.
pub const CREATION_FLAGS: u32 = CREATE_UNICODE_ENVIRONMENT | CREATE_SUSPENDED;

/// The interactive desktop. Without it some shells can fail with
/// `STATUS_DLL_INIT_FAILED` when launched under a restricted token.
pub const DESKTOP: &'static str = "Winsta0\\Default";

/// What `ResumeThread` returns when it fails.
pub const RESUME_FAILED: u32 = 0xFFFF_FFFF;

/// The number behind the combined flags. A child is always created suspended.
pub proof fn law_creation_flags()
    ensures
        CREATION_FLAGS == 0x404,
        CREATION_FLAGS & CREATE_SUSPENDED == CREATE_SUSPENDED,
{
    assert(CREATION_FLAGS == 0x404) by (bit_vector);
    assert(CREATION_FLAGS & CREATE_SUSPENDED == CREATE_SUSPENDED) by (bit_vector);
}

/// A suspended child process and its primary thread.
#[derive(Debug, PartialEq, Eq)]
pub struct SpawnedChild {
    pub process: OwnedHandle,
    pub thread: OwnedHandle,
}

impl SpawnedChild {
    pub fn process(&self) -> (r: usize)
        ensures
            r == self.process.0,
    {
        self.process.raw()
    }

    /// The call that resumes the suspended primary thread, letting the child
    /// start running.
    pub fn resume(&self) -> (r: Call)
        ensures
            r == (Call::ResumeThread { thread: self.thread.0 }),
    {
        Call::ResumeThread { thread: self.thread.raw() }
    }
}

/// What comes of resuming a child.
pub open spec fn resumption(reply: Reply) -> Outcome {
    if reply.code != RESUME_FAILED {
        Ok(())
    } else {
        Err(SandboxError::ResumeThread { last_error: reply.last_error })
    }
}

/// Whether [`SpawnedChild::resume`] succeeded.
pub fn resumed(reply: &Reply) -> (r: Outcome)
    ensures
        r == resumption(*reply),
{
    if reply.code == RESUME_FAILED {
        return Err(SandboxError::ResumeThread { last_error: reply.last_error });
    }
    Ok(())
}

/// The call that creates the child. The name of the application, the
/// attributes, the environment and the current directory are null. The startup
/// flags are 0, so that the child takes its standard handles from the console.
pub open spec fn create_process_call(token: Option<usize>) -> Call {
    Call::CreateProcess {
        primary_token: token,
        application_name: 0,
        process_attributes: 0,
        thread_attributes: 0,
        inherit_handles: 1,
        flags: CREATION_FLAGS,
        environment: 0,
        current_directory: 0,
        startup_flags: 0,
    }
}

/// What the child is created with: the command line of its argv, and the
/// desktop.
pub open spec fn launch_payload(argv: Seq<Seq<char>>) -> PayloadView {
    PayloadView::Launch { command_line: utf16(command_line(argv)).push(0), desktop: utf16(DESKTOP@).push(0) }
}

/// What a child is created with holds its whole argv: the command line ends in
/// a 0, and what stands before that is UTF-16 for a line that is split into
/// exactly that argv. The desktop ends in a 0 too, and is the interactive one.
pub proof fn law_launched_argv_is_read_back(argv: Seq<Seq<char>>)
    requires
        argv.len() > 0,
        readable_program(argv[0]),
    ensures
        launch_payload(argv) matches PayloadView::Launch { command_line: line, desktop } && {
            &&& line.len() > 0
            &&& line.last() == 0
            &&& split_command_line(utf16_lossy(line.drop_last())) == argv
            &&& desktop.len() > 0
            &&& desktop.last() == 0
            &&& utf16_lossy(desktop.drop_last()) == "Winsta0\\Default"@
        },
{
    law_command_line_is_read_back(argv);
    law_wide_text_is_read_back(command_line(argv));
    law_wide_text_is_read_back(DESKTOP@);
    assert(utf16(command_line(argv)).push(0).drop_last() =~= utf16(command_line(argv)));
    assert(utf16(DESKTOP@).push(0).drop_last() =~= utf16(DESKTOP@));
}

/// The call that creates the child hands over the token as it is given, lets
/// the child inherit handles, and creates it suspended; all else it leaves at
/// null.
pub proof fn law_child_is_created_suspended(token: Option<usize>)
    ensures
        create_process_call(token) == (Call::CreateProcess {
            primary_token: token,
            application_name: 0,
            process_attributes: 0,
            thread_attributes: 0,
            inherit_handles: 1,
            flags: 0x404,
            environment: 0,
            current_directory: 0,
            startup_flags: 0,
        }),
{
    law_creation_flags();
}

/// A child is there if and only if the system says that it was created, and it
/// has the handles that the system gave. Resuming it fails only with
/// 0xFFFF_FFFF. The errors tell what the system told.
pub proof fn law_child_has_the_given_handles(reply: Reply)
    ensures
        match spawning(reply) {
            Ok(child) => reply.code != 0 && child.process.0 == reply.first && child.thread.0 == reply.second,
            Err(error) => reply.code == 0 && error == (SandboxError::CreateProcess { last_error: reply.last_error }),
        },
        match resumption(reply) {
            Ok(_) => reply.code != 0xFFFF_FFFF,
            Err(error) => reply.code == 0xFFFF_FFFF && error == (SandboxError::ResumeThread {
                last_error: reply.last_error,
            }),
        },
{
}

/// Spawn `argv` as a suspended child that inherits the helper's console.
///
/// When `token` is `Some`, the child is created with that (restricted) primary
/// token; when `None`, it uses the helper's own ambient token. The child
/// inherits the helper's console, current directory, and environment.
pub fn spawn_suspended(token: Option<usize>, argv: &Vec<String>) -> (r: Request)
    ensures
        r@ == (RequestView { call: create_process_call(token), payload: launch_payload(texts(argv@)) }),
        r.payload matches Payload::Launch { command_line: line, desktop } && line@ == utf16(
            command_line(texts(argv@)),
        ).push(0) && desktop@ == utf16("Winsta0\\Default"@).push(0),
{
    let line = argv_to_command_line(argv);
    let call = Call::CreateProcess {
        primary_token: token,
        application_name: 0,
        process_attributes: 0,
        thread_attributes: 0,
        inherit_handles: 1,
        flags: CREATION_FLAGS,
        environment: 0,
        current_directory: 0,
        startup_flags: 0,
    };
    let payload = Payload::Launch { command_line: to_wide(line.as_str()), desktop: to_wide(DESKTOP) };
    Request { call, payload }
}

/// What comes of creating a child.
pub open spec fn spawning(reply: Reply) -> Result<SpawnedChild, SandboxError> {
    if reply.code != 0 {
        Ok(SpawnedChild { process: OwnedHandle(reply.first), thread: OwnedHandle(reply.second) })
    } else {
        Err(SandboxError::CreateProcess { last_error: reply.last_error })
    }
}

/// The child that [`spawn_suspended`] created.
pub fn spawned(reply: &Reply) -> (r: Result<SpawnedChild, SandboxError>)
    ensures
        r == spawning(*reply),
{
    if reply.code == 0 {
        return Err(SandboxError::CreateProcess { last_error: reply.last_error });
    }
    Ok(SpawnedChild { process: OwnedHandle::new(reply.first), thread: OwnedHandle::new(reply.second) })
}

} // verus!
