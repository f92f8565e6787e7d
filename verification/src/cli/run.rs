//! The options of a run, and when a failed run is taken up again.

use vstd::prelude::*;

use crate::text::{cat7, chars, dec, dec_u64, dec_usize, eq, slice, strs};
use crate::words::{natural_of, parse_natural, pieces_at, split_at, starts, starts_with, trim, trimmed};

verus! {

/// How a failed run is taken up again: how often at most, after how many seconds, and after
/// which errors. No error named stands for all of them.
pub struct RestartPolicy {
    pub max: usize,
    pub backoff: Vec<u64>,
    pub codes: Vec<String>,
}

/// How a failed run is taken up again, mathematically.
pub struct PolicyV {
    pub max: usize,
    pub backoff: Seq<u64>,
    pub codes: Seq<Seq<char>>,
}

impl View for RestartPolicy {
    type V = PolicyV;

    open spec fn view(&self) -> PolicyV {
        PolicyV { max: self.max, backoff: self.backoff@, codes: strs(self.codes@) }
    }
}

/// The options of a run.
pub struct RunOptions {
    pub restart: Option<RestartPolicy>,
    pub resume: bool,
}

/// The options of a run, mathematically.
pub struct OptionsV {
    pub restart: Option<PolicyV>,
    pub resume: bool,
}

impl View for RunOptions {
    type V = OptionsV;

    open spec fn view(&self) -> OptionsV {
        OptionsV {
            restart: match self.restart {
                Some(p) => Some(p@),
                None => None,
            },
            resume: self.resume,
        }
    }
}

/// The options as far as they are read.
pub struct ReadV {
    pub has_restart: bool,
    pub resume: bool,
    pub policy: PolicyV,
}

/// The options where none is given.
pub open spec fn unread() -> ReadV {
    ReadV {
        has_restart: false,
        resume: false,
        policy: PolicyV { max: 3, backoff: seq![1, 3, 10], codes: Seq::empty() },
    }
}

/// A number of restarts: three where the text gives none.
pub open spec fn restarts_of(s: Seq<char>) -> usize {
    match natural_of(s) {
        Some(n) => if n <= usize::MAX {
            n as usize
        } else {
            3
        },
        None => 3,
    }
}

/// The first `n` waiting times that are numbers.
pub open spec fn delays_in(ps: Seq<Seq<char>>, n: int) -> Seq<u64>
    decreases n,
{
    if n <= 0 || n > ps.len() {
        Seq::empty()
    } else {
        let before = delays_in(ps, n - 1);
        match natural_of(trimmed(ps[n - 1])) {
            Some(k) => if k <= u64::MAX {
                before.push(k as u64)
            } else {
                before
            },
            None => before,
        }
    }
}

/// The waiting times of a text: one second where it gives none.
pub open spec fn delays_of(s: Seq<char>) -> Seq<u64> {
    let ps = pieces_at(s, ',');
    let d = delays_in(ps, ps.len() as int);
    if d.len() == 0 {
        seq![1u64]
    } else {
        d
    }
}

/// The first `n` codes that are not empty.
pub open spec fn codes_in(ps: Seq<Seq<char>>, n: int) -> Seq<Seq<char>>
    decreases n,
{
    if n <= 0 || n > ps.len() {
        Seq::empty()
    } else {
        let before = codes_in(ps, n - 1);
        let c = trimmed(ps[n - 1]);
        if c.len() == 0 {
            before
        } else {
            before.push(c)
        }
    }
}

/// The codes of a text.
pub open spec fn codes_of(s: Seq<char>) -> Seq<Seq<char>> {
    let ps = pieces_at(s, ',');
    codes_in(ps, ps.len() as int)
}

/// The options with one more argument, if it is an option.
pub open spec fn with_option(o: ReadV, a: Seq<char>) -> Option<ReadV> {
    if a == "--restart"@ {
        Some(ReadV { has_restart: true, ..o })
    } else if a == "--resume"@ {
        Some(ReadV { resume: true, ..o })
    } else if starts(a, "--restart="@) {
        Some(
            ReadV {
                has_restart: true,
                policy: PolicyV { max: restarts_of(a.skip("--restart="@.len() as int)), ..o.policy },
                ..o
            },
        )
    } else if starts(a, "--backoff="@) {
        Some(
            ReadV {
                policy: PolicyV { backoff: delays_of(a.skip("--backoff="@.len() as int)), ..o.policy },
                ..o
            },
        )
    } else if starts(a, "--restart-on="@) {
        Some(
            ReadV {
                policy: PolicyV { codes: codes_of(a.skip("--restart-on="@.len() as int)), ..o.policy },
                ..o
            },
        )
    } else {
        None
    }
}

/// The options that the arguments from the `i`-th on give, and where the first argument
/// stands that is none.
pub open spec fn options_from(args: Seq<Seq<char>>, i: int, o: ReadV) -> (ReadV, int)
    decreases args.len() - i,
{
    if i < 0 || i >= args.len() {
        (o, args.len() as int)
    } else {
        match with_option(o, args[i]) {
            Some(p) => options_from(args, i + 1, p),
            None => (o, i),
        }
    }
}

/// The options that arguments give, and the arguments behind them: the script and its own.
pub open spec fn run_args(args: Seq<Seq<char>>) -> (OptionsV, Seq<Seq<char>>) {
    let (o, i) = options_from(args, 0, unread());
    (
        OptionsV {
            restart: if o.has_restart {
                Some(o.policy)
            } else {
                None
            },
            resume: o.resume,
        },
        args.skip(i),
    )
}

/// A text behind a beginning.
pub fn behind(s: &str, w: &str) -> (r: Option<String>)
    ensures
        match r {
            Some(t) => starts(s@, w@) && t@ == s@.skip(w@.len() as int),
            None => !starts(s@, w@),
        },
{
    if starts_with(s, w) {
        let v = chars(s);
        let n: usize = chars(w).len();
        let t = slice(&v, n, v.len());
        assert(t@ =~= s@.skip(w@.len() as int));
        Some(t)
    } else {
        None
    }
}

fn read_delays(s: &str) -> (r: Vec<u64>)
    ensures
        r@ == delays_of(s@),
{
    let ps = split_at(s, ',');
    let mut out: Vec<u64> = Vec::new();
    let mut i: usize = 0;
    while i < ps.len()
        invariant
            i <= ps.len(),
            out@ == delays_in(strs(ps@), i as int),
        decreases ps.len() - i,
    {
        assert(strs(ps@)[i as int] == ps@[i as int]@);
        let t = trim(ps[i].as_str());
        if let Some(n) = parse_natural(t.as_str()) {
            out.push(n);
        }
        i = i + 1;
    }
    if out.len() == 0 {
        out.push(1);
        assert(out@ =~= seq![1u64]);
    }
    out
}

fn read_codes(s: &str) -> (r: Vec<String>)
    ensures
        strs(r@) == codes_of(s@),
{
    let ps = split_at(s, ',');
    let mut out: Vec<String> = Vec::new();
    assert(strs(out@) =~= Seq::empty());
    let mut i: usize = 0;
    while i < ps.len()
        invariant
            i <= ps.len(),
            strs(out@) == codes_in(strs(ps@), i as int),
        decreases ps.len() - i,
    {
        assert(strs(ps@)[i as int] == ps@[i as int]@);
        let t = trim(ps[i].as_str());
        let ghost was = strs(out@);
        if chars(t.as_str()).len() > 0 {
            out.push(t);
            assert(strs(out@) =~= was.push(t@));
        }
        i = i + 1;
    }
    out
}

/// The arguments from a place on.
pub fn args_from(args: &Vec<String>, from: usize) -> (r: Vec<String>)
    requires
        from <= args.len(),
    ensures
        strs(r@) == strs(args@).skip(from as int),
{
    let mut out: Vec<String> = Vec::new();
    let mut i: usize = from;
    while i < args.len()
        invariant
            from <= i <= args.len(),
            out.len() == i - from,
            forall|k: int| 0 <= k < out.len() ==> (#[trigger] out@[k])@ == args@[k + from]@,
        decreases args.len() - i,
    {
        out.push(args[i].clone());
        i = i + 1;
    }
    assert(strs(out@) =~= strs(args@).skip(from as int));
    out
}

/// Reads the options of a run. What is left are the script and its own arguments; there is
/// always a time to wait.
pub fn parse_run_args(args: &Vec<String>) -> (r: (RunOptions, Vec<String>))
    ensures
        (r.0@, strs(r.1@)) == run_args(strs(args@)),
        r.0.restart matches Some(p) ==> p.backoff.len() > 0,
{
    let mut max: usize = 3;
    let mut backoff: Vec<u64> = vec![1, 3, 10];
    let mut codes: Vec<String> = Vec::new();
    let mut has_restart = false;
    let mut resume = false;
    let mut i: usize = 0;
    let ghost goal = options_from(strs(args@), 0, unread());
    assert(strs(codes@) =~= Seq::empty());
    assert(backoff@ =~= seq![1u64, 3, 10]);
    while i < args.len()
        invariant_except_break
            i <= args.len(),
            backoff.len() > 0,
            goal == options_from(strs(args@), 0, unread()),
            options_from(
                strs(args@),
                i as int,
                ReadV {
                    has_restart,
                    resume,
                    policy: PolicyV { max, backoff: backoff@, codes: strs(codes@) },
                },
            ) == goal,
        ensures
            i <= args.len(),
            backoff.len() > 0,
            goal == options_from(strs(args@), 0, unread()),
            goal == (
                ReadV {
                    has_restart,
                    resume,
                    policy: PolicyV { max, backoff: backoff@, codes: strs(codes@) },
                },
                i as int,
            ),
        decreases args.len() - i,
    {
        assert(strs(args@)[i as int] == args@[i as int]@);
        let a = args[i].as_str();
        if eq(a, "--restart") {
            has_restart = true;
        } else if eq(a, "--resume") {
            resume = true;
        } else if let Some(n) = behind(a, "--restart=") {
            has_restart = true;
            max = match parse_natural(n.as_str()) {
                Some(k) => if k <= usize::MAX as u64 {
                    k as usize
                } else {
                    3
                },
                None => 3,
            };
        } else if let Some(t) = behind(a, "--backoff=") {
            backoff = read_delays(t.as_str());
        } else if let Some(t) = behind(a, "--restart-on=") {
            codes = read_codes(t.as_str());
        } else {
            break;
        }
        i = i + 1;
    }
    let rest = args_from(args, i);
    let restart = if has_restart {
        Some(RestartPolicy { max, backoff, codes })
    } else {
        None
    };
    (RunOptions { restart, resume }, rest)
}

/// How long to wait before a run is taken up again, that was taken up `count` times and
/// failed with an error; nothing where it is not taken up again.
pub open spec fn retry(p: PolicyV, count: int, code: Seq<char>) -> Option<u64> {
    if (p.codes.len() > 0 && !p.codes.contains(code)) || count >= p.max {
        None
    } else if count < p.backoff.len() {
        Some(p.backoff[count])
    } else {
        Some(p.backoff.last())
    }
}

/// How long to wait before a failed run is taken up again.
pub fn after_failure(p: &RestartPolicy, count: usize, code: &str) -> (r: Option<u64>)
    requires
        p.backoff.len() > 0,
    ensures
        r == retry(p@, count as int, code@),
{
    let mut known = p.codes.len() == 0;
    let mut i: usize = 0;
    while i < p.codes.len()
        invariant
            i <= p.codes.len(),
            known == (p.codes.len() == 0 || exists|k: int| 0 <= k < i && (#[trigger] p.codes@[k])@ == code@),
        decreases p.codes.len() - i,
    {
        if eq(p.codes[i].as_str(), code) {
            known = true;
        }
        i = i + 1;
    }
    assert(strs(p.codes@).contains(code@) <==> exists|k: int|
        0 <= k < p.codes.len() && (#[trigger] p.codes@[k])@ == code@) by {
        if strs(p.codes@).contains(code@) {
            let k = choose|k: int| 0 <= k < strs(p.codes@).len() && strs(p.codes@)[k] == code@;
            assert(p.codes@[k]@ == code@);
        }
        if exists|k: int| 0 <= k < p.codes.len() && (#[trigger] p.codes@[k])@ == code@ {
            let k = choose|k: int| 0 <= k < p.codes.len() && (#[trigger] p.codes@[k])@ == code@;
            assert(strs(p.codes@)[k] == code@);
        }
    }
    if !known || count >= p.max {
        None
    } else if count < p.backoff.len() {
        Some(p.backoff[count])
    } else {
        Some(p.backoff[p.backoff.len() - 1])
    }
}

/// What is said before a run is taken up again.
pub open spec fn retry_line(path: Seq<char>, code: Seq<char>, count: int, max: nat, delay: nat) -> Seq<char> {
    "[restart] "@ + path + ": error["@ + code + "] — retry "@ + dec((count + 1) as nat) + "/"@ + dec(max) + " after "@
        + dec(delay) + "s"@
}

/// What is said before a run is taken up again.
pub fn restart_line(path: &str, code: &str, count: usize, max: usize, delay: u64) -> (r: String)
    requires
        count < max,
    ensures
        r@ == retry_line(path@, code@, count as int, max as nat, delay as nat),
{
    let n = dec_usize(count + 1);
    let m = dec_usize(max);
    let d = dec_u64(delay);
    let head = cat7("[restart] ", path, ": error[", code, "] — retry ", n.as_str(), "/");
    let t = cat7(head.as_str(), m.as_str(), " after ", d.as_str(), "s", "", "");
    proof {
        reveal_strlit("");
    }
    assert(t@ =~= retry_line(path@, code@, count as int, max as nat, delay as nat));
    t
}

/// A run is taken up again fewer times than the policy allows, and only after an error that
/// it names, or any where it names none.
pub proof fn law_restarts_are_bounded(p: PolicyV, count: int, code: Seq<char>)
    requires
        retry(p, count, code) is Some,
    ensures
        count < p.max,
        p.codes.len() == 0 || p.codes.contains(code),
{
}

/// Arguments that begin with the script are handed on as they are, and no option is set.
pub proof fn law_script_arguments_stay(args: Seq<Seq<char>>)
    requires
        args.len() > 0,
        with_option(unread(), args[0]) is None,
    ensures
        run_args(args) == (OptionsV { restart: None, resume: false }, args),
{
    assert(args.skip(0) =~= args);
}

} // verus!
