//! What a command may do, and how that is handed to the helper.
//!
//! The terminal layer runs the helper with the path of a policy file, so that
//! the command itself stays out of the host's argument list. The file is an
//! object with one entry for each field of [`SandboxPolicy`].

use vstd::prelude::*;

use crate::command_line::{law_texts_keep_all, texts};

verus! {

/// The hidden flag the helper launcher is invoked with. The single argument
/// that follows is the path of the policy file.
pub const SANDBOX_HELPER_FLAG: &'static str = "--zed-sandbox-helper";

/// Per-command relaxations of the default Windows sandbox.
///
/// All-false is the default, fully-sandboxed run. Setting any field requires
/// user approval before the command is launched.
#[derive(Clone, Copy, Debug, PartialEq, Eq, Structural)]
pub struct SandboxPermissions {
    /// Allow network access for the command. Carried through the policy but
    /// not enforced.
    pub allow_network: bool,
    /// Allow unrestricted filesystem writes (skips the write restriction).
    pub allow_fs_write: bool,
}

impl Default for SandboxPermissions {
    fn default() -> (r: Self)
        ensures
            !r.allow_network,
            !r.allow_fs_write,
    {
        SandboxPermissions { allow_network: false, allow_fs_write: false }
    }
}

/// The sandbox policy for a single command. It carries the original
/// `program`/`args` too, so the only argv the terminal layer sees is that of
/// the helper.
#[derive(Clone, Debug, PartialEq, Eq)]
pub struct SandboxPolicy {
    /// The original program to launch (e.g. a shell).
    pub program: String,
    /// The original argument list for `program`.
    pub args: Vec<String>,
    /// Directory subtrees the command may write to when `allow_fs_write` is
    /// false.
    pub writable_directories: Vec<String>,
    /// Allow unrestricted filesystem writes (skips the write restriction).
    pub allow_fs_write: bool,
    /// Allow network access (carried through; not enforced).
    pub allow_network: bool,
}

/// What a policy says.
#[verifier::ext_equal]
pub struct PolicyView {
    pub program: Seq<char>,
    pub args: Seq<Seq<char>>,
    pub writable_directories: Seq<Seq<char>>,
    pub allow_fs_write: bool,
    pub allow_network: bool,
}

impl View for SandboxPolicy {
    type V = PolicyView;

    open spec fn view(&self) -> PolicyView {
        PolicyView {
            program: self.program@,
            args: texts(self.args@),
            writable_directories: texts(self.writable_directories@),
            allow_fs_write: self.allow_fs_write,
            allow_network: self.allow_network,
        }
    }
}

/// Why an invocation cannot be wrapped.
#[derive(Clone, Copy, Debug, PartialEq, Eq, Structural)]
pub enum WrapError {
    /// The policy cannot be serialized: a writable directory's path is not
    /// Unicode.
    Serialize,
    /// The path of the policy file is not Unicode.
    PolicyPath,
    /// The current executable is not known.
    CurrentExecutable,
    /// The path of the current executable is not Unicode.
    HelperPath,
}

/// Copies of the strings in a list.
pub fn copied(list: &Vec<String>) -> (r: Vec<String>)
    ensures
        texts(r@) == texts(list@),
        r@.len() == list@.len(),
        forall|i: int| 0 <= i < list@.len() ==> (#[trigger] r@[i])@ == list@[i]@,
{
    let mut out: Vec<String> = Vec::new();
    for i in 0..list.len()
        invariant
            texts(out@) == texts(list@).take(i as int),
    {
        let ghost before = texts(out@);
        out.push(list[i].clone());
        assert(texts(out@) =~= before.push(list@[i as int]@));
        assert(texts(list@).take(i as int).push(list@[i as int]@) =~= texts(list@).take(i + 1));
    }
    assert(texts(list@).take(list@.len() as int) =~= texts(list@));
    proof {
        law_texts_keep_all(out@);
        law_texts_keep_all(list@);
        assert forall|i: int| 0 <= i < list@.len() implies (#[trigger] out@[i])@ == list@[i]@ by {
            assert(texts(out@)[i] == texts(list@)[i]);
        }
    }
    out
}

/// Whether every path has a Unicode form.
pub open spec fn all_unicode(paths: Seq<Option<String>>) -> bool {
    forall|i: int| 0 <= i < paths.len() ==> (#[trigger] paths[i]) is Some
}

/// The Unicode forms of paths that have one.
pub open spec fn unicode_forms(paths: Seq<Option<String>>) -> Seq<Seq<char>> {
    paths.map_values(|p: Option<String>| p->0@)
}

impl SandboxPolicy {
    /// The policy for running `program` with `args`. `writable_directories`
    /// holds the Unicode form of each path, and `None` for a path without one:
    /// such a path cannot be written to the policy file.
    pub fn new(
        program: &str,
        args: &Vec<String>,
        writable_directories: &Vec<Option<String>>,
        permissions: SandboxPermissions,
    ) -> (r: Result<SandboxPolicy, WrapError>)
        ensures
            r is Ok <==> all_unicode(writable_directories@),
            r matches Err(e) ==> e == WrapError::Serialize,
            r matches Ok(p) ==> p@ == (PolicyView {
                program: program@,
                args: texts(args@),
                writable_directories: unicode_forms(writable_directories@),
                allow_fs_write: permissions.allow_fs_write,
                allow_network: permissions.allow_network,
            }),
            r matches Ok(p) ==> {
                &&& p.program@ == program@
                &&& p.args@.len() == args@.len()
                &&& forall|i: int| 0 <= i < args@.len() ==> (#[trigger] p.args@[i])@ == args@[i]@
                &&& p.writable_directories@.len() == writable_directories@.len()
                &&& forall|i: int|
                    0 <= i < writable_directories@.len() ==> (writable_directories@[i] matches Some(path) && (
                    #[trigger] p.writable_directories@[i])@ == path@)
            },
    {
        let mut directories: Vec<String> = Vec::new();
        for i in 0..writable_directories.len()
            invariant
                forall|j: int| 0 <= j < i ==> (#[trigger] writable_directories@[j]) is Some,
                texts(directories@) == unicode_forms(writable_directories@).take(i as int),
        {
            let ghost before = texts(directories@);
            match &writable_directories[i] {
                Some(path) => {
                    directories.push(path.clone());
                    assert(texts(directories@) =~= before.push(path@));
                },
                None => {
                    assert(!(writable_directories@[i as int] is Some));
                    return Err(WrapError::Serialize);
                },
            }
            assert(unicode_forms(writable_directories@).take(i + 1) =~= before.push(
                unicode_forms(writable_directories@)[i as int],
            ));
        }
        assert(unicode_forms(writable_directories@).take(writable_directories@.len() as int) =~= unicode_forms(
            writable_directories@,
        ));
        let copies = copied(args);
        proof {
            law_texts_keep_all(directories@);
            assert forall|i: int| 0 <= i < writable_directories@.len() implies (writable_directories@[i] matches Some(
                path,
            ) && (#[trigger] directories@[i])@ == path@) by {
                assert(texts(directories@)[i] == unicode_forms(writable_directories@)[i]);
            }
        }
        Ok(
            SandboxPolicy {
                program: program.to_string(),
                args: copies,
                writable_directories: directories,
                allow_fs_write: permissions.allow_fs_write,
                allow_network: permissions.allow_network,
            },
        )
    }

    /// The argv of the command: the program, then its arguments.
    pub fn argv(&self) -> (r: Vec<String>)
        ensures
            texts(r@) == seq![self@.program] + self@.args,
            r@.len() == 1 + self.args@.len(),
            r@[0]@ == self.program@,
            forall|i: int| 0 <= i < self.args@.len() ==> r@[i + 1]@ == (#[trigger] self.args@[i])@,
    {
        argv_of(&self.program, &self.args)
    }
}

fn argv_of(program: &String, args: &Vec<String>) -> (r: Vec<String>)
    ensures
        texts(r@) == seq![program@] + texts(args@),
        r@.len() == 1 + args@.len(),
        r@[0]@ == program@,
        forall|i: int| 0 <= i < args@.len() ==> r@[i + 1]@ == (#[trigger] args@[i])@,
{
    let mut argv: Vec<String> = Vec::new();
    argv.push(program.clone());
    let mut rest = copied(args);
    let ghost copies = rest@;
    argv.append(&mut rest);
    assert(texts(argv@) =~= seq![program@] + texts(copies));
    assert forall|i: int| 0 <= i < args@.len() implies argv@[i + 1]@ == (#[trigger] args@[i])@ by {
        assert(argv@[i + 1] == copies[i]);
    }
    argv
}

/// The command that a policy is for.
#[derive(Debug, PartialEq, Eq)]
pub struct Command {
    pub program: String,
    pub args: Vec<String>,
}

impl View for Command {
    type V = Seq<Seq<char>>;

    /// The command's argv.
    open spec fn view(&self) -> Seq<Seq<char>> {
        seq![self.program@] + texts(self.args@)
    }
}

impl Command {
    /// The argv of the command: the program, then its arguments.
    pub fn argv(&self) -> (r: Vec<String>)
        ensures
            texts(r@) == self@,
            r@.len() == 1 + self.args@.len(),
            r@[0]@ == self.program@,
            forall|i: int| 0 <= i < self.args@.len() ==> r@[i + 1]@ == (#[trigger] self.args@[i])@,
    {
        argv_of(&self.program, &self.args)
    }
}

/// The command of a policy.
pub open spec fn command_of(policy: SandboxPolicy) -> Command {
    Command { program: policy.program, args: policy.args }
}

/// Where the current executable is.
#[derive(Debug)]
pub enum HelperPath {
    /// The system did not say.
    Unknown,
    /// Its path has no Unicode form.
    NotUnicode,
    /// Its path.
    At(String),
}

/// The invocation that runs a command through the helper: the program to
/// launch, which is the current executable, and its arguments, which are the
/// hidden flag and the path of the policy file. `policy_path` is the path's
/// Unicode form, if it has one.
pub fn wrap_invocation(policy_path: Option<String>, helper: HelperPath) -> (r: Result<
    (String, Vec<String>),
    WrapError,
>)
    ensures
        r is Ok <==> policy_path is Some && helper is At,
        r matches Ok(invocation) ==> invocation.0@ == helper->At_0@ && texts(invocation.1@) == seq![
            SANDBOX_HELPER_FLAG@,
            policy_path->0@,
        ],
        r matches Ok(invocation) ==> {
            &&& invocation.1@.len() == 2
            &&& invocation.1@[0]@ == "--zed-sandbox-helper"@
            &&& invocation.1@[1]@ == policy_path->0@
        },
        r matches Err(e) ==> e == if policy_path is None {
            WrapError::PolicyPath
        } else if helper is Unknown {
            WrapError::CurrentExecutable
        } else {
            WrapError::HelperPath
        },
{
    let path = match policy_path {
        Some(path) => path,
        None => {
            return Err(WrapError::PolicyPath);
        },
    };
    let program = match helper {
        HelperPath::At(program) => program,
        HelperPath::Unknown => {
            return Err(WrapError::CurrentExecutable);
        },
        HelperPath::NotUnicode => {
            return Err(WrapError::HelperPath);
        },
    };
    let mut args: Vec<String> = Vec::new();
    args.push(SANDBOX_HELPER_FLAG.to_string());
    args.push(path);
    assert(texts(args@) =~= seq![SANDBOX_HELPER_FLAG@, path@]);
    Ok((program, args))
}

/// The Unicode forms of paths are those of all of them, each at its place.
pub proof fn law_unicode_forms_keep_all(paths: Seq<Option<String>>)
    ensures
        unicode_forms(paths).len() == paths.len(),
        forall|i: int|
            0 <= i < paths.len() ==> (paths[i] matches Some(path) ==> #[trigger] unicode_forms(paths)[i] == path@),
{
}

/// What a policy says is what its fields hold.
pub proof fn law_policy_says_what_it_holds(policy: SandboxPolicy)
    ensures
        policy@.program == policy.program@,
        policy@.args.len() == policy.args@.len(),
        forall|i: int| 0 <= i < policy.args@.len() ==> #[trigger] policy@.args[i] == policy.args@[i]@,
        policy@.writable_directories.len() == policy.writable_directories@.len(),
        forall|i: int|
            0 <= i < policy.writable_directories@.len() ==> #[trigger] policy@.writable_directories[i]
                == policy.writable_directories@[i]@,
        policy@.allow_fs_write == policy.allow_fs_write,
        policy@.allow_network == policy.allow_network,
{
}

/// The argv of a policy's command is its program and then all of its arguments.
pub proof fn law_command_is_the_policys(policy: SandboxPolicy)
    ensures
        ({
            let argv = command_of(policy)@;
            &&& argv.len() == 1 + policy.args@.len()
            &&& argv[0] == policy.program@
            &&& forall|i: int| 0 <= i < policy.args@.len() ==> #[trigger] argv[i + 1] == policy.args@[i]@
        }),
{
}

} // verus!
