//! Windows sandbox for commands that run on behalf of an agent.
//!
//! Windows has no command that applies a sandbox to itself and then runs
//! another: whoever calls `CreateProcess*` must build the token and pass it in.
//! So a **helper launcher** stands between: [`policy::wrap_invocation`] rewrites
//! a command into an invocation of the current executable with a hidden flag
//! and a policy file, and the helper ([`launcher`]) reconstructs the sandbox
//! and spawns the real command as a restricted child.
//!
//! - Reads use the user's normal identity, so the command can read anywhere.
//! - A `WRITE_RESTRICTED` token consults a per-session **capability SID** only
//!   for *write* access checks. Writable roots get an inheritable allow-ACE for
//!   that SID; everywhere else writes are denied.
//! - `allow_fs_write` skips the restriction entirely.
//!
//! Network restriction is not implemented: `allow_network` is carried through
//! the policy and has no effect.
//!
//! The library decides and the caller acts. Each procedure that talks to the
//! system is a value that waits for an answer (see [`win32`]), and its contract
//! says which call follows from which answer. [`conduct`], [`ledger`], [`dacl`]
//! and [`access`] state what holds of whole runs of the helper.

pub mod access;
pub mod acl;
pub mod capability;
pub mod command_line;
pub mod conduct;
pub mod dacl;
pub mod error;
pub mod job;
pub mod launcher;
pub mod ledger;
pub mod policy;
pub mod policy_file;
pub mod process;
pub mod restriction;
pub mod roots;
pub mod run;
pub mod text;
pub mod token;
pub mod token_groups;
pub mod waiting;
pub mod win32;
pub mod winutil;
