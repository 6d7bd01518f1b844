//! Windows command lines: quoting an argument list, and reading one back.
//!
//! `CreateProcess` takes one string, and every program splits it again by the
//! rules of the C runtime (`CommandLineToArgvW` has the same). The second half
//! of this module states those rules, and shows that what is quoted here is
//! read there as it was given.

use vstd::prelude::*;

use crate::text::{chars_of, push_text};

verus! {

/// The characters that part arguments.
pub open spec fn is_blank(c: char) -> bool {
    c == ' ' || c == '\t'
}

/// Whether an argument is put in quotation marks: it is empty, or holds a space
/// or a tab.
pub open spec fn needs_quotes(arg: Seq<char>) -> bool {
    arg.len() == 0 || exists|i: int| 0 <= i < arg.len() && is_blank(#[trigger] arg[i])
}

/// Whether the backslashes that `s` begins with, if any, run up to a quotation
/// mark: one of `s`, or, where `s` is `wrapped` in quotation marks, the one
/// behind it.
pub open spec fn meets_quote(s: Seq<char>, wrapped: bool) -> bool
    decreases s.len(),
{
    if s.len() == 0 {
        wrapped
    } else {
        s[0] == '"' || (s[0] == '\\' && meets_quote(s.drop_first(), wrapped))
    }
}

/// The characters of an argument as they stand on a command line: a backslash
/// is doubled where its run meets a quotation mark, a quotation mark gets a
/// backslash before it, and every other character stays.
pub open spec fn escape(s: Seq<char>, wrapped: bool) -> Seq<char>
    decreases s.len(),
{
    if s.len() == 0 {
        seq![]
    } else if s[0] == '\\' && meets_quote(s, wrapped) {
        seq!['\\', '\\'] + escape(s.drop_first(), wrapped)
    } else if s[0] == '"' {
        seq!['\\', '"'] + escape(s.drop_first(), wrapped)
    } else {
        seq![s[0]] + escape(s.drop_first(), wrapped)
    }
}

/// The inside of an argument in quotation marks.
pub open spec fn escaped(arg: Seq<char>) -> Seq<char> {
    escape(arg, true)
}

/// An argument without quotation marks around it. The backslashes at its end
/// are not doubled.
pub open spec fn bare(arg: Seq<char>) -> Seq<char> {
    escape(arg, false)
}

/// An argument as it stands on a command line.
pub open spec fn quoted(arg: Seq<char>) -> Seq<char> {
    if needs_quotes(arg) {
        seq!['"'] + escaped(arg) + seq!['"']
    } else {
        bare(arg)
    }
}

/// `n` backslashes.
pub open spec fn backslashes(n: nat) -> Seq<char> {
    Seq::new(n, |i: int| '\\')
}

/// Whether `s` begins with exactly `k` backslashes.
pub open spec fn starts_with_run(s: Seq<char>, k: int) -> bool {
    &&& 0 <= k <= s.len()
    &&& forall|i: int| 0 <= i < k ==> s[i] == '\\'
    &&& k < s.len() ==> s[k] != '\\'
}

proof fn lemma_meets_quote(s: Seq<char>, k: int, wrapped: bool)
    requires
        starts_with_run(s, k),
    ensures
        meets_quote(s, wrapped) == if k == s.len() {
            wrapped
        } else {
            s[k] == '"'
        },
    decreases k,
{
    if k > 0 {
        assert(s.drop_first() == s.skip(1));
        lemma_meets_quote(s.drop_first(), k - 1, wrapped);
    }
}

/// A run of backslashes is escaped as a whole.
proof fn lemma_escape_run(s: Seq<char>, k: int, wrapped: bool)
    requires
        starts_with_run(s, k),
    ensures
        escape(s, wrapped) == if meets_quote(s, wrapped) {
            backslashes((2 * k) as nat)
        } else {
            backslashes(k as nat)
        } + escape(s.skip(k), wrapped),
    decreases k,
{
    if k == 0 {
        assert(s.skip(0) == s);
        assert(backslashes(0) =~= seq![]);
    } else {
        lemma_meets_quote(s, k, wrapped);
        lemma_meets_quote(s.drop_first(), k - 1, wrapped);
        lemma_escape_run(s.drop_first(), k - 1, wrapped);
        assert(s.drop_first().skip(k - 1) == s.skip(k));
        assert(seq!['\\', '\\'] + backslashes((2 * (k - 1)) as nat) =~= backslashes((2 * k) as nat));
        assert(seq!['\\'] + backslashes((k - 1) as nat) =~= backslashes(k as nat));
    }
}

/// Appends `n` backslashes.
fn push_backslashes(out: &mut String, n: usize)
    ensures
        final(out)@ == old(out)@ + backslashes(n as nat),
{
    assert(out@ =~= old(out)@ + backslashes(0));
    for i in 0..n
        invariant
            out@ == old(out)@ + backslashes(i as nat),
    {
        out.push('\\');
        assert(backslashes(i as nat).push('\\') =~= backslashes((i + 1) as nat));
    }
}

fn blank(c: char) -> (r: bool)
    ensures
        r == is_blank(c),
{
    c == ' ' || c == '\t'
}

/// Quote a single Windows command-line argument following the rules used by
/// `CommandLineToArgvW`/the CRT so spaces, quotes, and backslashes survive a
/// round-trip. Matches `std::process::Command`'s Windows quoting: only an empty
/// argument or one with a space or a tab is put in quotation marks.
pub fn quote_windows_arg(arg: &str) -> (r: String)
    ensures
        r@ == quoted(arg@),
{
    let chars = chars_of(arg);
    let mut needs: bool = chars.len() == 0;
    for i in 0..chars.len()
        invariant
            chars@ == arg@,
            needs == (arg@.len() == 0 || exists|j: int| 0 <= j < i && is_blank(#[trigger] arg@[j])),
    {
        if blank(chars[i]) {
            needs = true;
        }
    }
    let mut out = String::new();
    if needs {
        out.push('"');
    }
    let ghost opening = out@;
    let mut run: usize = 0;
    assert(arg@.skip(0) == arg@);
    assert(opening =~= if needs {
        seq!['"']
    } else {
        seq![]
    });
    for i in 0..chars.len()
        invariant
            chars@ == arg@,
            run <= i <= arg@.len(),
            forall|j: int| i - run <= j < i ==> arg@[j] == '\\',
            opening + escape(arg@, needs) == out@ + escape(arg@.skip(i - run), needs),
    {
        let c = chars[i];
        let ghost rest = arg@.skip(i - run);
        let ghost before = out@;
        if c == '\\' {
            run += 1;
        } else {
            proof {
                assert forall|j: int| 0 <= j < run implies rest[j] == '\\' by {
                    assert(rest[j] == arg@[i - run + j]);
                }
                lemma_meets_quote(rest, run as int, needs);
                lemma_escape_run(rest, run as int, needs);
                assert(rest.skip(run as int) =~= arg@.skip(i as int));
                assert(arg@.skip(i as int).drop_first() =~= arg@.skip(i + 1));
            }
            if c == '"' {
                push_backslashes(&mut out, run);
                push_backslashes(&mut out, run);
                out.push('\\');
                out.push('"');
                assert(backslashes(run as nat) + backslashes(run as nat) =~= backslashes((2 * run) as nat));
                assert(before + (backslashes((2 * run) as nat) + (seq!['\\', '"'] + escape(arg@.skip(i + 1), needs)))
                    =~= out@ + escape(arg@.skip(i + 1), needs));
            } else {
                push_backslashes(&mut out, run);
                out.push(c);
                assert(before + (backslashes(run as nat) + (seq![c] + escape(arg@.skip(i + 1), needs))) =~= out@
                    + escape(arg@.skip(i + 1), needs));
            }
            run = 0;
        }
    }
    proof {
        let rest = arg@.skip(arg@.len() - run);
        assert forall|j: int| 0 <= j < run implies rest[j] == '\\' by {
            assert(rest[j] == arg@[arg@.len() - run + j]);
        }
        lemma_meets_quote(rest, run as int, needs);
        lemma_escape_run(rest, run as int, needs);
        assert(escape(rest.skip(run as int), needs) =~= seq![]);
        assert(backslashes(run as nat) + backslashes(run as nat) =~= backslashes((2 * run) as nat));
    }
    push_backslashes(&mut out, run);
    if needs {
        push_backslashes(&mut out, run);
        out.push('"');
    }
    assert(out@ =~= quoted(arg@));
    out
}

/// The quoted arguments, one space between each two.
pub open spec fn command_line(argv: Seq<Seq<char>>) -> Seq<char>
    decreases argv.len(),
{
    if argv.len() == 0 {
        seq![]
    } else if argv.len() == 1 {
        quoted(argv[0])
    } else {
        command_line(argv.drop_last()) + seq![' '] + quoted(argv.last())
    }
}

/// The texts of a list of strings.
pub open spec fn texts(list: Seq<String>) -> Seq<Seq<char>> {
    list.map_values(|s: String| s@)
}

/// Build a Windows command line for `CreateProcess`-style APIs from an argv.
pub fn argv_to_command_line(argv: &Vec<String>) -> (r: String)
    ensures
        r@ == command_line(texts(argv@)),
{
    let mut out = String::new();
    let ghost all = texts(argv@);
    for i in 0..argv.len()
        invariant
            all == texts(argv@),
            out@ == command_line(all.take(i as int)),
    {
        if i > 0 {
            out.push(' ');
        }
        let one = quote_windows_arg(argv[i].as_str());
        push_text(&mut out, one.as_str());
        proof {
            let upto = all.take(i + 1);
            assert(upto.drop_last() =~= all.take(i as int));
            assert(upto.last() == argv[i as int]@);
            if i > 0 {
                assert(out@ =~= command_line(all.take(i as int)) + seq![' '] + quoted(upto.last()));
            } else {
                assert(out@ =~= quoted(upto[0]));
            }
        }
    }
    assert(all.take(argv@.len() as int) =~= all);
    out
}

/// How many backslashes `s` begins with.
pub open spec fn run_length(s: Seq<char>) -> nat
    decreases s.len(),
{
    if s.len() > 0 && s[0] == '\\' {
        1 + run_length(s.drop_first())
    } else {
        0
    }
}

proof fn lemma_run_length(s: Seq<char>)
    ensures
        starts_with_run(s, run_length(s) as int),
    decreases s.len(),
{
    if s.len() > 0 && s[0] == '\\' {
        lemma_run_length(s.drop_first());
        let k = run_length(s) as int;
        assert forall|i: int| 0 <= i < k implies s[i] == '\\' by {
            if i > 0 {
                assert(s.drop_first()[i - 1] == s[i]);
            }
        }
    }
}

/// The C runtime's reading of one argument: `s` is what is left of the line,
/// `inside` tells whether a quoted part is open, and `arg` is what has been
/// read. The result is the argument and what is left behind it.
///
/// - Outside a quoted part, a blank ends the argument.
/// - Backslashes stand for themselves, unless a quotation mark follows. Then
///   each two stand for one, and one that is left over makes the quotation mark
///   a character of the argument.
/// - Another quotation mark opens or closes a quoted part, and two of them
///   inside one are a quotation mark of the argument.
pub open spec fn read_arg(s: Seq<char>, inside: bool, arg: Seq<char>) -> (Seq<char>, Seq<char>)
    decreases s.len(),
{
    if s.len() == 0 {
        (arg, s)
    } else if !inside && is_blank(s[0]) {
        (arg, s)
    } else if s[0] == '\\' {
        let n = run_length(s);
        if n >= s.len() {
            (arg + backslashes(n), seq![])
        } else if s[n as int] != '"' {
            read_arg(s.skip(n as int), inside, arg + backslashes(n))
        } else if n % 2 == 0 {
            read_arg(s.skip(n as int), inside, arg + backslashes(n / 2))
        } else {
            read_arg(s.skip(n as int + 1), inside, arg + backslashes(n / 2) + seq!['"'])
        }
    } else if s[0] == '"' {
        if inside && s.len() > 1 && s[1] == '"' {
            read_arg(s.skip(2), true, arg.push('"'))
        } else {
            read_arg(s.skip(1), !inside, arg)
        }
    } else {
        read_arg(s.skip(1), inside, arg.push(s[0]))
    }
}

/// What is left behind an argument is shorter by at least one character, where
/// the line does not begin with a blank.
proof fn lemma_read_arg_consumes(s: Seq<char>, inside: bool, arg: Seq<char>)
    ensures
        read_arg(s, inside, arg).1.len() <= s.len(),
        s.len() > 0 && (inside || !is_blank(s[0])) ==> read_arg(s, inside, arg).1.len() < s.len(),
    decreases s.len(),
{
    if s.len() > 0 && (inside || !is_blank(s[0])) {
        let n = run_length(s);
        if s[0] == '\\' {
            if n < s.len() {
                if s[n as int] != '"' {
                    lemma_read_arg_consumes(s.skip(n as int), inside, arg + backslashes(n));
                } else if n % 2 == 0 {
                    lemma_read_arg_consumes(s.skip(n as int), inside, arg + backslashes(n / 2));
                } else {
                    lemma_read_arg_consumes(s.skip(n as int + 1), inside, arg + backslashes(n / 2) + seq!['"']);
                }
            }
        } else if s[0] == '"' {
            if inside && s.len() > 1 && s[1] == '"' {
                lemma_read_arg_consumes(s.skip(2), true, arg.push('"'));
            } else {
                lemma_read_arg_consumes(s.skip(1), !inside, arg);
            }
        } else {
            lemma_read_arg_consumes(s.skip(1), inside, arg.push(s[0]));
        }
    }
}

/// The line without the blanks that it begins with.
pub open spec fn skip_blanks(s: Seq<char>) -> Seq<char>
    decreases s.len(),
{
    if s.len() > 0 && is_blank(s[0]) {
        skip_blanks(s.drop_first())
    } else {
        s
    }
}

proof fn lemma_skip_blanks(s: Seq<char>)
    ensures
        skip_blanks(s).len() <= s.len(),
        skip_blanks(s).len() > 0 ==> !is_blank(skip_blanks(s)[0]),
    decreases s.len(),
{
    if s.len() > 0 && is_blank(s[0]) {
        lemma_skip_blanks(s.drop_first());
    }
}

/// The C runtime's reading of the arguments behind the program's name.
pub open spec fn split_args(s: Seq<char>) -> Seq<Seq<char>>
    decreases s.len(),
    via split_args_decreases
{
    let t = skip_blanks(s);
    if t.len() == 0 {
        seq![]
    } else {
        let (arg, rest) = read_arg(t, false, seq![]);
        seq![arg] + split_args(rest)
    }
}

#[via_fn]
proof fn split_args_decreases(s: Seq<char>) {
    lemma_skip_blanks(s);
    lemma_read_arg_consumes(skip_blanks(s), false, seq![]);
}

/// The C runtime's reading of the program's name: quotation marks open and
/// close a quoted part and are left out, and backslashes stand for themselves.
pub open spec fn read_program(s: Seq<char>, inside: bool, name: Seq<char>) -> (Seq<char>, Seq<char>)
    decreases s.len(),
{
    if s.len() == 0 || (!inside && is_blank(s[0])) {
        (name, s)
    } else if s[0] == '"' {
        read_program(s.skip(1), !inside, name)
    } else {
        read_program(s.skip(1), inside, name.push(s[0]))
    }
}

/// The C runtime's reading of a whole command line: the program's name, then
/// the arguments.
pub open spec fn split_command_line(line: Seq<char>) -> Seq<Seq<char>> {
    let (name, rest) = read_program(line, false, seq![]);
    seq![name] + split_args(rest)
}

proof fn lemma_run_length_is(s: Seq<char>, k: int)
    requires
        starts_with_run(s, k),
    ensures
        run_length(s) == k,
    decreases k,
{
    if k > 0 {
        lemma_run_length_is(s.drop_first(), k - 1);
    }
}

/// The inside of a quoted argument is read as the argument.
proof fn lemma_read_escaped(a: Seq<char>, tail: Seq<char>, arg: Seq<char>)
    requires
        tail.len() == 0 || is_blank(tail[0]),
    ensures
        read_arg(escaped(a) + seq!['"'] + tail, true, arg) == (arg + a, tail),
    decreases a.len(),
{
    let s = escaped(a) + seq!['"'] + tail;
    let k = run_length(a) as int;
    lemma_run_length(a);
    lemma_meets_quote(a, k, true);
    lemma_escape_run(a, k, true);
    let rest = a.skip(k);
    if k == a.len() {
        assert(escaped(rest) =~= seq![]);
        assert(escaped(a) =~= backslashes((2 * k) as nat));
        assert(a =~= backslashes(k as nat));
        let close = seq!['"'] + tail;
        assert(close.skip(1) =~= tail);
        assert(read_arg(tail, false, arg + a) == (arg + a, tail));
        if tail.len() > 0 {
            assert(close[1] == tail[0]);
        }
        assert(read_arg(close, true, arg + a) == (arg + a, tail));
        if k > 0 {
            assert(starts_with_run(s, 2 * k));
            lemma_run_length_is(s, 2 * k);
            assert(s.skip(2 * k) =~= close);
        } else {
            assert(s =~= close);
            assert(arg + a =~= arg);
        }
    } else if rest[0] == '"' {
        let after = rest.drop_first();
        let inner = escaped(after) + seq!['"'] + tail;
        assert(s =~= backslashes((2 * k + 1) as nat) + seq!['"'] + inner);
        assert(starts_with_run(s, 2 * k + 1));
        lemma_run_length_is(s, 2 * k + 1);
        assert(s.skip(2 * k + 2) =~= inner);
        let next = arg + backslashes(k as nat) + seq!['"'];
        lemma_read_escaped(after, tail, next);
        assert(next + after =~= arg + a);
    } else if k > 0 {
        let inner = escaped(rest) + seq!['"'] + tail;
        assert(escaped(rest)[0] == rest[0]);
        assert(s =~= backslashes(k as nat) + inner);
        assert(starts_with_run(s, k));
        lemma_run_length_is(s, k);
        assert(s.skip(k) =~= inner);
        let next = arg + backslashes(k as nat);
        lemma_read_escaped(rest, tail, next);
        assert(next + rest =~= arg + a);
    } else {
        let after = a.drop_first();
        let inner = escaped(after) + seq!['"'] + tail;
        assert(s =~= seq![a[0]] + inner);
        assert(s.skip(1) =~= inner);
        lemma_read_escaped(after, tail, arg.push(a[0]));
        assert(arg.push(a[0]) + after =~= arg + a);
    }
}

/// An argument without blanks, bare, is read as the argument.
proof fn lemma_read_bare(a: Seq<char>, tail: Seq<char>, arg: Seq<char>)
    requires
        tail.len() == 0 || is_blank(tail[0]),
        forall|i: int| 0 <= i < a.len() ==> !is_blank(#[trigger] a[i]),
    ensures
        read_arg(bare(a) + tail, false, arg) == (arg + a, tail),
    decreases a.len(),
{
    let s = bare(a) + tail;
    let k = run_length(a) as int;
    lemma_run_length(a);
    lemma_meets_quote(a, k, false);
    lemma_escape_run(a, k, false);
    let rest = a.skip(k);
    assert forall|i: int| 0 <= i < rest.len() implies !is_blank(#[trigger] rest[i]) by {
        assert(rest[i] == a[k + i]);
    }
    if k == a.len() {
        assert(bare(rest) =~= seq![]);
        assert(bare(a) =~= backslashes(k as nat));
        assert(a =~= backslashes(k as nat));
        if k > 0 {
            assert(starts_with_run(s, k)) by {
                if k < s.len() {
                    assert(s[k] == tail[0]);
                }
            }
            lemma_run_length_is(s, k);
            assert(s.skip(k) =~= tail);
            if k >= s.len() {
                assert(tail =~= seq![]);
            } else {
                assert(s[k] == tail[0]);
                assert(read_arg(tail, false, arg + a) == (arg + a, tail));
            }
        } else {
            assert(s =~= tail);
            assert(arg + a =~= arg);
        }
    } else if rest[0] == '"' {
        let after = rest.drop_first();
        let inner = bare(after) + tail;
        assert(s =~= backslashes((2 * k + 1) as nat) + seq!['"'] + inner);
        assert(starts_with_run(s, 2 * k + 1));
        lemma_run_length_is(s, 2 * k + 1);
        assert(s.skip(2 * k + 2) =~= inner);
        let next = arg + backslashes(k as nat) + seq!['"'];
        assert forall|i: int| 0 <= i < after.len() implies !is_blank(#[trigger] after[i]) by {
            assert(after[i] == rest[1 + i]);
        }
        lemma_read_bare(after, tail, next);
        assert(next + after =~= arg + a);
    } else if k > 0 {
        let inner = bare(rest) + tail;
        assert(bare(rest)[0] == rest[0]);
        assert(s =~= backslashes(k as nat) + inner);
        assert(starts_with_run(s, k));
        lemma_run_length_is(s, k);
        assert(s.skip(k) =~= inner);
        let next = arg + backslashes(k as nat);
        lemma_read_bare(rest, tail, next);
        assert(next + rest =~= arg + a);
    } else {
        let after = a.drop_first();
        let inner = bare(after) + tail;
        assert(s =~= seq![a[0]] + inner);
        assert(s.skip(1) =~= inner);
        assert(!is_blank(a[0]));
        assert forall|i: int| 0 <= i < after.len() implies !is_blank(#[trigger] after[i]) by {
            assert(after[i] == a[1 + i]);
        }
        lemma_read_bare(after, tail, arg.push(a[0]));
        assert(arg.push(a[0]) + after =~= arg + a);
    }
}

/// Whatever an argument holds, its quoted form is read as that argument, and
/// nothing of what follows it is taken.
pub proof fn law_quoted_argument_is_read_back(arg: Seq<char>, tail: Seq<char>)
    requires
        tail.len() == 0 || is_blank(tail[0]),
    ensures
        read_arg(quoted(arg) + tail, false, seq![]) == (arg, tail),
{
    let s = quoted(arg) + tail;
    if needs_quotes(arg) {
        let inner = escaped(arg) + seq!['"'] + tail;
        assert(s.skip(1) =~= inner);
        lemma_read_escaped(arg, tail, seq![]);
        assert(Seq::<char>::empty() + arg =~= arg);
    } else {
        lemma_read_bare(arg, tail, seq![]);
        assert(Seq::<char>::empty() + arg =~= arg);
    }
}

proof fn lemma_quoted_starts_argument(arg: Seq<char>)
    ensures
        quoted(arg).len() > 0,
        !is_blank(quoted(arg)[0]),
{
    if !needs_quotes(arg) {
        assert(!is_blank(arg[0]));
    }
}

/// The quoted arguments, a space before each.
pub open spec fn argument_tail(args: Seq<Seq<char>>) -> Seq<char>
    decreases args.len(),
{
    if args.len() == 0 {
        seq![]
    } else {
        seq![' '] + quoted(args[0]) + argument_tail(args.drop_first())
    }
}

proof fn lemma_argument_tail_last(args: Seq<Seq<char>>)
    requires
        args.len() > 0,
    ensures
        argument_tail(args) == argument_tail(args.drop_last()) + seq![' '] + quoted(args.last()),
    decreases args.len(),
{
    let rest = args.drop_first();
    if args.len() == 1 {
        assert(argument_tail(rest) =~= seq![]);
        assert(argument_tail(args.drop_last()) =~= seq![]);
        assert(argument_tail(args) =~= seq![' '] + quoted(args[0]));
    } else {
        lemma_argument_tail_last(rest);
        assert(args.drop_last().drop_first() =~= rest.drop_last());
        assert(argument_tail(args) =~= argument_tail(args.drop_last()) + seq![' '] + quoted(args.last()));
    }
}

proof fn lemma_command_line_front(argv: Seq<Seq<char>>)
    requires
        argv.len() > 0,
    ensures
        command_line(argv) == quoted(argv[0]) + argument_tail(argv.drop_first()),
    decreases argv.len(),
{
    if argv.len() == 1 {
        assert(argument_tail(argv.drop_first()) =~= seq![]);
        assert(command_line(argv) =~= quoted(argv[0]) + argument_tail(argv.drop_first()));
    } else {
        let front = argv.drop_last();
        lemma_command_line_front(front);
        lemma_argument_tail_last(argv.drop_first());
        assert(argv.drop_first().drop_last() =~= front.drop_first());
        assert(command_line(argv) =~= quoted(argv[0]) + argument_tail(argv.drop_first()));
    }
}

proof fn lemma_split_argument_tail(args: Seq<Seq<char>>)
    ensures
        split_args(argument_tail(args)) == args,
    decreases args.len(),
{
    let s = argument_tail(args);
    if args.len() == 0 {
        assert(split_args(s) =~= args);
    } else {
        let rest = args.drop_first();
        let tail = argument_tail(rest);
        let t = quoted(args[0]) + tail;
        lemma_quoted_starts_argument(args[0]);
        assert(s.drop_first() =~= t);
        assert(t[0] == quoted(args[0])[0]);
        assert(skip_blanks(s) == t) by {
            assert(skip_blanks(t) == t);
        }
        if rest.len() > 0 {
            assert(tail[0] == ' ');
        }
        law_quoted_argument_is_read_back(args[0], tail);
        lemma_split_argument_tail(rest);
        assert(split_args(s) =~= args);
    }
}

/// The names of programs that survive the reading of a program's name, which
/// knows no backslash escapes: those without a quotation mark that, where they
/// stand in quotation marks, do not end in a backslash.
pub open spec fn readable_program(name: Seq<char>) -> bool {
    &&& forall|i: int| 0 <= i < name.len() ==> name[i] != '"'
    &&& needs_quotes(name) && name.len() > 0 ==> name.last() != '\\'
}

proof fn lemma_escape_without_quotes(s: Seq<char>, wrapped: bool)
    requires
        forall|i: int| 0 <= i < s.len() ==> s[i] != '"',
        wrapped && s.len() > 0 ==> s.last() != '\\',
    ensures
        escape(s, wrapped) == s,
    decreases s.len(),
{
    if s.len() > 0 {
        let k = run_length(s) as int;
        lemma_run_length(s);
        lemma_meets_quote(s, k, wrapped);
        let rest = s.drop_first();
        assert forall|i: int| 0 <= i < rest.len() implies rest[i] != '"' by {
            assert(rest[i] == s[i + 1]);
        }
        lemma_escape_without_quotes(rest, wrapped);
        assert(seq![s[0]] + rest =~= s);
    }
}

proof fn lemma_read_program_text(a: Seq<char>, tail: Seq<char>, inside: bool, name: Seq<char>)
    requires
        forall|i: int| 0 <= i < a.len() ==> a[i] != '"' && (inside || !is_blank(a[i])),
    ensures
        read_program(a + tail, inside, name) == read_program(tail, inside, name + a),
    decreases a.len(),
{
    let s = a + tail;
    if a.len() == 0 {
        assert(s =~= tail);
        assert(name + a =~= name);
    } else {
        assert(s[0] == a[0]);
        let rest = a.drop_first();
        assert forall|i: int| 0 <= i < rest.len() implies rest[i] != '"' && (inside || !is_blank(rest[i])) by {
            assert(rest[i] == a[i + 1]);
        }
        lemma_read_program_text(rest, tail, inside, name.push(a[0]));
        assert(s.skip(1) =~= rest + tail);
        assert(name.push(a[0]) + rest =~= name + a);
    }
}

/// A program's name is read back, where its reading can bring it back.
pub proof fn law_quoted_program_is_read_back(name: Seq<char>, tail: Seq<char>)
    requires
        readable_program(name),
        tail.len() == 0 || is_blank(tail[0]),
    ensures
        read_program(quoted(name) + tail, false, seq![]) == (name, tail),
{
    let s = quoted(name) + tail;
    assert(Seq::<char>::empty() + name =~= name);
    if needs_quotes(name) {
        lemma_escape_without_quotes(name, true);
        let close = seq!['"'] + tail;
        assert(s.skip(1) =~= name + close);
        lemma_read_program_text(name, close, true, seq![]);
        assert(close.skip(1) =~= tail);
        assert(read_program(tail, false, name) == (name, tail));
        assert(read_program(close, true, name) == (name, tail));
    } else {
        lemma_escape_without_quotes(name, false);
        lemma_read_program_text(name, tail, false, seq![]);
    }
}

/// A command line is split into the arguments that it was built from, in their
/// order and with all their spaces, quotation marks and backslashes.
pub proof fn law_command_line_is_read_back(argv: Seq<Seq<char>>)
    requires
        argv.len() > 0,
        readable_program(argv[0]),
    ensures
        split_command_line(command_line(argv)) == argv,
{
    let rest = argv.drop_first();
    let tail = argument_tail(rest);
    lemma_command_line_front(argv);
    if rest.len() > 0 {
        assert(tail[0] == ' ');
    }
    law_quoted_program_is_read_back(argv[0], tail);
    lemma_split_argument_tail(rest);
    assert(seq![argv[0]] + rest =~= argv);
}

/// The texts of a list are those of its strings, each at its place.
pub proof fn law_texts_keep_all(list: Seq<String>)
    ensures
        texts(list).len() == list.len(),
        forall|i: int| 0 <= i < list.len() ==> #[trigger] texts(list)[i] == list[i]@,
{
}

/// A command line grows by a space and the quoted argument with every argument.
pub proof fn law_command_line_grows(argv: Seq<Seq<char>>, arg: Seq<char>)
    ensures
        command_line(seq![]) == Seq::<char>::empty(),
        command_line(seq![arg]) == quoted(arg),
        argv.len() > 0 ==> command_line(argv.push(arg)) == command_line(argv) + seq![' '] + quoted(arg),
{
    assert(argv.push(arg).drop_last() =~= argv);
}

/// An argument without spaces, tabs and quotation marks stands as it is.
pub proof fn law_plain_argument_stays(arg: Seq<char>)
    requires
        arg.len() > 0,
        forall|i: int| 0 <= i < arg.len() ==> #[trigger] arg[i] != ' ' && arg[i] != '\t' && arg[i] != '"',
    ensures
        quoted(arg) == arg,
{
    lemma_escape_without_quotes(arg, false);
}

/// An argument is put in quotation marks if it is empty or holds a space or a
/// tab, and only then. Besides that, all of it stands there, escaped.
pub proof fn law_only_blanks_are_wrapped(arg: Seq<char>)
    ensures
        ({
            let holds_blank = exists|i: int| 0 <= i < arg.len() && (#[trigger] arg[i] == ' ' || arg[i] == '\t');
            let line = quoted(arg);
            &&& arg.len() == 0 || holds_blank ==> line == seq!['"'] + escape(arg, true) + seq!['"']
            &&& arg.len() > 0 && !holds_blank ==> line == escape(arg, false) && line.len() > 0 && line[0] != '"'
        }),
{
}

/// How the characters of an argument are written, run by run:
/// - backslashes before a quotation mark are doubled, and the mark gets one more;
/// - backslashes before any other character stay, and so does the character;
/// - backslashes at the end are doubled if a quotation mark follows there.
pub proof fn law_backslashes_double_before_quotes(n: nat, c: char, s: Seq<char>, wrapped: bool)
    requires
        c != '\\',
    ensures
        ({
            let run = Seq::new(n, |i: int| '\\');
            let doubled = Seq::new(2 * n, |i: int| '\\');
            &&& c == '"' ==> escape(run + seq![c] + s, wrapped) == doubled + seq!['\\', '"'] + escape(s, wrapped)
            &&& c != '"' ==> escape(run + seq![c] + s, wrapped) == run + seq![c] + escape(s, wrapped)
            &&& escape(run, wrapped) == if wrapped {
                doubled
            } else {
                run
            }
        }),
{
    let run = Seq::new(n, |i: int| '\\');
    let doubled = Seq::new(2 * n, |i: int| '\\');
    let t = run + seq![c] + s;
    let k = n as int;
    assert(starts_with_run(t, k));
    assert(backslashes(n) =~= run);
    assert(backslashes(2 * n) =~= doubled);
    lemma_meets_quote(t, k, wrapped);
    lemma_escape_run(t, k, wrapped);
    let rest = t.skip(k);
    assert(rest =~= seq![c] + s);
    assert(rest.drop_first() =~= s);
    if c == '"' {
        assert(escape(t, wrapped) =~= doubled + seq!['\\', '"'] + escape(s, wrapped));
    } else {
        assert(escape(t, wrapped) =~= run + seq![c] + escape(s, wrapped));
    }
    assert(starts_with_run(run, k));
    lemma_meets_quote(run, k, wrapped);
    lemma_escape_run(run, k, wrapped);
    assert(run.skip(k) =~= seq![]);
    assert(escape(run, wrapped) =~= if wrapped {
        doubled
    } else {
        run
    });
}

} // verus!
