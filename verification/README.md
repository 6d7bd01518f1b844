# windows_sandbox

A sandbox for terminal commands on Windows, written in Verus.

A command is not run directly: the current executable is run again as a
**helper**, with the path of a policy file. The helper makes a job object that
kills its processes when it closes, builds a write-restricted token around a
random per-session capability SID, grants that SID write access to the policy's
directories, runs the command under the token inside the job, and revokes what
it granted.

## Layout

- `src/` is the verified library. It decides; it makes no system call itself.
  Every procedure that talks to the system is a value that waits for an answer
  and says which call comes next (`win32`).
  - `command_line`, `winutil`, `text`: quoting, UTF-16 and text.
  - `policy`, `policy_file`: what a command may do, and the file that says so.
  - `capability`, `token`, `token_groups`, `acl`: the capability SID, the
    restricted token and the access lists.
  - `job`, `process`, `roots`, `restriction`, `launcher`: the helper.
  - `run`, `waiting`, `conduct`, `ledger`, `dacl`, `access`: whole runs of the
    helper, and what holds of them.
- `app/` makes the calls: files, JSON, and the Windows API.
- `tests/` runs the library against a simulated system.

## What is proved

The contracts say what each function returns for every input, but for the
capability SID, which is drawn at random. On top of these stand the
`law_*` proof functions, among them:

- A quoted command line is read back by the C runtime's rules as the arguments
  that went into it.
- A policy is read back from the entries that are written for it.
- The process that is created runs the policy's program and arguments, and only
  after it was put into the job.
- The command is never run without its write restriction unless the policy
  allows that or the user has been told which call was refused.
- The command writes only where the capability SID, the logon session or
  everyone is allowed something.
- Besides the null device, only the writable roots have their DACL edited, and
  both only for the capability SID.
- Whatever was granted on a root is revoked before the run is over, as far as
  the system lets it be: also where a later grant or the launch failed. The null
  device keeps its entry.
- Every handle that the system hands out is closed exactly once, and all memory
  is freed exactly once, if failed calls hand out none that is not looked at.
- A run makes a limited number of calls, and fails only for want of a policy, of
  a job or of a launch.

What the system itself does is no part of the proof. Where a promise rests on
it, the law names what it takes for granted: that a job ends its processes when
it closes (`ledger`), how entries are merged into a DACL (`dacl`), that the
writes of a restricted token are checked against its restricting SIDs
(`access`), and that a resolved path resolves to itself (`roots`).
