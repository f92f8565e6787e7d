//! What the command line is for: the uses that the help names.

use vstd::prelude::*;

use super::run::{
    law_script_arguments_stay, options_from, restarts_of, retry, unread, with_option, OptionsV, PolicyV, ReadV,
};
use super::{command_of, ends, CommandV};
use crate::builtins::http_laws::lemma_dec;
use crate::error::ErrV;
use crate::text::{dec, is_digit};
use crate::words::{natural_of, starts};

verus! {

proof fn lemma_words()
    ensures
        "--help"@.len() == 6 && "--help"@[0] == '-' && "--help"@[1] == '-' && "--help"@[5] == 'p' && "--help"@[4] == 'l',
        "-h"@.len() == 2 && "-h"@[0] == '-' && "-h"@[1] == 'h' && "-h"@[1] == 'h' && "-h"@[0] == '-',
        "help"@.len() == 4 && "help"@[0] == 'h' && "help"@[1] == 'e' && "help"@[3] == 'p' && "help"@[2] == 'l',
        "--version"@.len() == 9 && "--version"@[0] == '-' && "--version"@[1] == '-' && "--version"@[8] == 'n' && "--version"@[7] == 'o',
        "-V"@.len() == 2 && "-V"@[0] == '-' && "-V"@[1] == 'V' && "-V"@[1] == 'V' && "-V"@[0] == '-',
        "version"@.len() == 7 && "version"@[0] == 'v' && "version"@[1] == 'e' && "version"@[6] == 'n' && "version"@[5] == 'o',
        "run"@.len() == 3 && "run"@[0] == 'r' && "run"@[1] == 'u' && "run"@[2] == 'n' && "run"@[1] == 'u',
        "debug"@.len() == 5 && "debug"@[0] == 'd' && "debug"@[1] == 'e' && "debug"@[4] == 'g' && "debug"@[3] == 'u',
        "fmt"@.len() == 3 && "fmt"@[0] == 'f' && "fmt"@[1] == 'm' && "fmt"@[2] == 't' && "fmt"@[1] == 'm',
        "test"@.len() == 4 && "test"@[0] == 't' && "test"@[1] == 'e' && "test"@[3] == 't' && "test"@[2] == 's',
        "bind"@.len() == 4 && "bind"@[0] == 'b' && "bind"@[1] == 'i' && "bind"@[3] == 'd' && "bind"@[2] == 'n',
        "build"@.len() == 5 && "build"@[0] == 'b' && "build"@[1] == 'u' && "build"@[4] == 'd' && "build"@[3] == 'l',
        "get"@.len() == 3 && "get"@[0] == 'g' && "get"@[1] == 'e' && "get"@[2] == 't' && "get"@[1] == 'e',
        "self-update"@.len() == 11 && "self-update"@[0] == 's' && "self-update"@[1] == 'e' && "self-update"@[10] == 'e' && "self-update"@[9] == 't',
        "lsp"@.len() == 3 && "lsp"@[0] == 'l' && "lsp"@[1] == 's' && "lsp"@[2] == 'p' && "lsp"@[1] == 's',
        "poop"@.len() == 4 && "poop"@[0] == 'p' && "poop"@[1] == 'o' && "poop"@[3] == 'p' && "poop"@[2] == 'o',
        "explain"@.len() == 7 && "explain"@[0] == 'e' && "explain"@[1] == 'x' && "explain"@[6] == 'n' && "explain"@[5] == 'i',
{
    reveal_strlit("--help");
    reveal_strlit("-h");
    reveal_strlit("help");
    reveal_strlit("--version");
    reveal_strlit("-V");
    reveal_strlit("version");
    reveal_strlit("run");
    reveal_strlit("debug");
    reveal_strlit("fmt");
    reveal_strlit("test");
    reveal_strlit("bind");
    reveal_strlit("build");
    reveal_strlit("get");
    reveal_strlit("self-update");
    reveal_strlit("lsp");
    reveal_strlit("poop");
    reveal_strlit("explain");
}

/// Whether a text is the path of a script: it ends as one, and is no option.
pub open spec fn script_path(s: Seq<char>) -> bool {
    &&& s.len() > 3
    &&& s[0] != '-'
    &&& s.skip(s.len() - 3) == seq!['.', 'h', 'n']
}

/// An argument that starts as no option does is none.
proof fn lemma_no_option(a: Seq<char>)
    requires
        a.len() > 0,
        a[0] != '-',
    ensures
        with_option(unread(), a) is None,
        forall|o: ReadV| #[trigger] with_option(o, a) is None,
{
    reveal_strlit("--restart");
    reveal_strlit("--resume");
    reveal_strlit("--restart=");
    reveal_strlit("--backoff=");
    reveal_strlit("--restart-on=");
    assert("--restart"@[0] == '-' && "--resume"@[0] == '-');
    assert(starts(a, "--restart="@) ==> a.take("--restart="@.len() as int)[0] == a[0]);
    assert(starts(a, "--backoff="@) ==> a.take("--backoff="@.len() as int)[0] == a[0]);
    assert(starts(a, "--restart-on="@) ==> a.take("--restart-on="@.len() as int)[0] == a[0]);
    assert("--restart="@[0] == '-' && "--backoff="@[0] == '-' && "--restart-on="@[0] == '-');
}

/// A script is run with the arguments behind it, under no options, whether `run` stands in front of it
/// or not.
pub proof fn law_scripts_are_run(script: Seq<char>, rest: Seq<Seq<char>>)
    requires
        script_path(script),
    ensures
        command_of(seq![script] + rest) == Ok::<CommandV, ErrV>(
            CommandV::Run(OptionsV { restart: None, resume: false }, script, rest),
        ),
        command_of(seq!["run"@, script] + rest) == command_of(seq![script] + rest),
{
    lemma_words();
    let n = script.len() as int;
    let tail = script.skip(n - 3);
    assert(tail[0] == script[n - 3] && tail[1] == script[n - 2] && tail[2] == script[n - 1]);
    reveal_strlit(".hn");
    assert(".hn"@ =~= seq!['.', 'h', 'n']);
    assert(ends(script, ".hn"@));
    assert((seq![script] + rest).skip(1) =~= rest);
    let more = seq![script] + rest;
    assert((seq!["run"@, script] + rest).skip(1) =~= more);
    lemma_no_option(script);
    law_script_arguments_stay(more);
    assert(more.skip(1) =~= rest);
}

/// Without arguments there is help, and each command takes what the help says.
pub proof fn law_commands(x: Seq<char>, y: Seq<char>, rest: Seq<Seq<char>>)
    ensures
        command_of(Seq::empty()) == Ok::<CommandV, ErrV>(CommandV::Help),
        command_of(seq!["--help"@] + rest) == Ok::<CommandV, ErrV>(CommandV::Help),
        command_of(seq!["--version"@] + rest) == Ok::<CommandV, ErrV>(CommandV::Version),
        command_of(seq!["debug"@, x] + rest) == Ok::<CommandV, ErrV>(CommandV::Debug(x, rest)),
        command_of(seq!["explain"@, x] + rest) == Ok::<CommandV, ErrV>(CommandV::Explain(x)),
        command_of(seq!["bind"@, x] + rest) == Ok::<CommandV, ErrV>(CommandV::Bind(x)),
        command_of(seq!["poop"@, x] + rest) == Ok::<CommandV, ErrV>(CommandV::Poop(x)),
        command_of(seq!["test"@, x] + rest) == Ok::<CommandV, ErrV>(CommandV::Test(x)),
        command_of(seq!["lsp"@] + rest) == Ok::<CommandV, ErrV>(CommandV::Lsp),
        command_of(seq!["get"@, x]) == Ok::<CommandV, ErrV>(CommandV::GetScript(x)),
        command_of(seq!["get"@, x, y]) == Ok::<CommandV, ErrV>(CommandV::GetModule(x, y)),
{
    lemma_words();
    let one = seq![x] + rest;
    assert(one.skip(1) =~= rest);
    assert((seq!["--help"@] + rest).skip(1) =~= rest);
    assert((seq!["--version"@] + rest).skip(1) =~= rest);
    assert((seq!["lsp"@] + rest).skip(1) =~= rest);
    assert((seq!["debug"@, x] + rest).skip(1) =~= one);
    assert((seq!["explain"@, x] + rest).skip(1) =~= one);
    assert((seq!["bind"@, x] + rest).skip(1) =~= one);
    assert((seq!["poop"@, x] + rest).skip(1) =~= one);
    assert((seq!["test"@, x] + rest).skip(1) =~= one);
    assert(seq!["get"@, x].skip(1) =~= seq![x]);
    assert(seq!["get"@, x, y].skip(1) =~= seq![x, y]);
}

/// `--resume` takes a run up again, `--restart` starts a failed run anew up to three times, after
/// one, three and ten seconds, and
/// `--restart=` with a number up to that many times.
pub proof fn law_run_options(script: Seq<char>, rest: Seq<Seq<char>>, n: usize)
    requires
        script.len() > 0,
        script[0] != '-',
    ensures
        command_of(seq!["run"@, "--resume"@, script] + rest) == Ok::<CommandV, ErrV>(
            CommandV::Run(OptionsV { restart: None, resume: true }, script, rest),
        ),
        command_of(seq!["run"@, "--restart"@, script] + rest) matches Ok(CommandV::Run(o, s, a)) && s == script && a == rest
            && !o.resume && (o.restart matches Some(p) && p.max == 3 && p.backoff == seq![1u64, 3, 10]
            && p.codes.len() == 0),
        command_of(seq!["run"@, "--restart="@ + dec(n as nat), script] + rest) matches Ok(CommandV::Run(o, s, a)) && s
            == script && a == rest && !o.resume && (o.restart matches Some(p) && p.max == n),
{
    lemma_words();
    lemma_one_option("--resume"@, script, rest);
    lemma_one_option("--restart"@, script, rest);
    let d = dec(n as nat);
    let a = "--restart="@ + d;
    lemma_one_option(a, script, rest);
    lemma_dec(n as nat);
    reveal_strlit("--restart");
    reveal_strlit("--resume");
    reveal_strlit("--restart=");
    assert("--restart"@.len() == 9 && "--resume"@.len() == 8 && "--restart="@.len() == 10);
    assert(a.take(10) =~= "--restart="@);
    assert(a.skip(10) =~= d);
    assert(is_digit(d[0]));
    assert(natural_of(d) == Some(n as nat));
    assert(restarts_of(d) == n);
}

proof fn lemma_one_option(a: Seq<char>, script: Seq<char>, rest: Seq<Seq<char>>)
    requires
        script.len() > 0,
        script[0] != '-',
    ensures
        with_option(unread(), a) matches Some(o) ==> command_of(seq!["run"@, a, script] + rest) == Ok::<CommandV, ErrV>(
            CommandV::Run(
                OptionsV {
                    restart: if o.has_restart {
                        Some(o.policy)
                    } else {
                        None
                    },
                    resume: o.resume,
                },
                script,
                rest,
            ),
        ),
{
    lemma_words();
    let args = seq![a, script] + rest;
    assert((seq!["run"@, a, script] + rest).skip(1) =~= args);
    lemma_no_option(script);
    if let Some(o) = with_option(unread(), a) {
        assert(args[0] == a && args[1] == script);
        assert(with_option(o, args[1]) is None);
        assert(options_from(args, 1, o) == (o, 1int));
        assert(options_from(args, 0, unread()) == (o, 1int));
        assert(args.skip(1) =~= seq![script] + rest);
        assert(args.skip(1).skip(1) =~= rest);
    }
}

/// A failed run is started anew as long as it was not as often as allowed and the error is one of those
/// that are named, or none is named. It waits as long as the policy gives for that time; the last
/// waiting time serves for all times behind it.
pub proof fn law_failed_runs_are_taken_up(p: PolicyV, count: int, code: Seq<char>)
    requires
        0 <= count < p.max,
        p.backoff.len() > 0,
        p.codes.len() == 0 || p.codes.contains(code),
    ensures
        retry(p, count, code) == Some(
            p.backoff[if count < p.backoff.len() {
                count
            } else {
                p.backoff.len() - 1
            }],
        ),
{
}

} // verus!
