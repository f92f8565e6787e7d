//! The command line: what a row of arguments asks for.

pub mod pack;
pub mod poop;
pub mod resume;
pub mod run;
pub mod usage;

use vstd::prelude::*;

use self::pack::{build_args, parse_build_args, BuildOptions, BuildV};
use self::run::{args_from, parse_run_args, run_args, OptionsV, RunOptions};
use crate::ast::{ffi_params_v, sigs_v, FfiParamV, FfiSig, FfiSigV};
use crate::error::{codes, err_plain, explain, explanation, ErrV, ZError};
use crate::text::{cat2, cat3, cat4, cat5, cat7, chars, dec, dec_usize, eq, slice, strs};
use crate::words::{join, joined_by};

verus! {

/// What is asked for.
pub enum Command {
    Help,
    Version,
    /// Run a script with arguments, under options.
    Run(RunOptions, String, Vec<String>),
    Debug(String, Vec<String>),
    /// Format files: whether in place.
    Fmt(bool, Vec<String>),
    Test(String),
    Bind(String),
    BuildDll(String),
    /// The version of the builder.
    BuildVersion,
    BuildExe(BuildOptions),
    BuildScript(BuildOptions),
    /// Fetch all modules of a script.
    GetScript(String),
    /// Fetch a module.
    GetModule(String, String),
    SelfUpdate(Option<String>),
    Lsp,
    Poop(String),
    Explain(String),
}

/// What is asked for, mathematically.
pub enum CommandV {
    Help,
    Version,
    Run(OptionsV, Seq<char>, Seq<Seq<char>>),
    Debug(Seq<char>, Seq<Seq<char>>),
    Fmt(bool, Seq<Seq<char>>),
    Test(Seq<char>),
    Bind(Seq<char>),
    BuildDll(Seq<char>),
    BuildVersion,
    BuildExe(BuildV),
    BuildScript(BuildV),
    GetScript(Seq<char>),
    GetModule(Seq<char>, Seq<char>),
    SelfUpdate(Option<Seq<char>>),
    Lsp,
    Poop(Seq<char>),
    Explain(Seq<char>),
}

impl View for Command {
    type V = CommandV;

    open spec fn view(&self) -> CommandV {
        match *self {
            Command::Help => CommandV::Help,
            Command::Version => CommandV::Version,
            Command::Run(o, p, a) => CommandV::Run(o@, p@, strs(a@)),
            Command::Debug(p, a) => CommandV::Debug(p@, strs(a@)),
            Command::Fmt(w, f) => CommandV::Fmt(w, strs(f@)),
            Command::Test(d) => CommandV::Test(d@),
            Command::Bind(p) => CommandV::Bind(p@),
            Command::BuildDll(p) => CommandV::BuildDll(p@),
            Command::BuildVersion => CommandV::BuildVersion,
            Command::BuildExe(o) => CommandV::BuildExe(o@),
            Command::BuildScript(o) => CommandV::BuildScript(o@),
            Command::GetScript(p) => CommandV::GetScript(p@),
            Command::GetModule(n, u) => CommandV::GetModule(n@, u@),
            Command::SelfUpdate(u) => CommandV::SelfUpdate(crate::error::opt_text(u)),
            Command::Lsp => CommandV::Lsp,
            Command::Poop(p) => CommandV::Poop(p@),
            Command::Explain(c) => CommandV::Explain(c@),
        }
    }
}

/// What reading a command comes to, mathematically.
pub open spec fn command_r(r: Result<Command, ZError>) -> Result<CommandV, ErrV> {
    match r {
        Ok(c) => Ok(c@),
        Err(e) => Err(e@),
    }
}

/// The error of an argument that is missing.
pub open spec fn lacking(msg: Seq<char>, help: Seq<char>) -> Result<CommandV, ErrV> {
    Err(err_plain(codes::SYNTAX@, msg, Some(help)))
}

fn lack(msg: &str, help: &str) -> (r: Result<Command, ZError>)
    ensures
        command_r(r) == lacking(msg@, help@),
{
    Err(ZError::plain(codes::SYNTAX, msg, Some(help)))
}

/// Whether a text ends in another.
pub open spec fn ends(s: Seq<char>, w: Seq<char>) -> bool {
    s.len() >= w.len() && s.skip(s.len() - w.len()) == w
}

fn ends_with(s: &str, w: &str) -> (r: bool)
    ensures
        r == ends(s@, w@),
{
    let v = chars(s);
    let n: usize = chars(w).len();
    if v.len() < n {
        return false;
    }
    let t = slice(&v, v.len() - n, v.len());
    assert(t@ =~= s@.skip(s@.len() - w@.len()));
    eq(t.as_str(), w)
}

/// The files among the first `n` arguments of the formatter.
pub open spec fn fmt_files(args: Seq<Seq<char>>, n: int) -> Seq<Seq<char>>
    decreases n,
{
    if n <= 0 || n > args.len() {
        Seq::empty()
    } else if args[n - 1] == "-w"@ || args[n - 1] == "--write"@ {
        fmt_files(args, n - 1)
    } else {
        fmt_files(args, n - 1).push(args[n - 1])
    }
}

/// What the formatter is asked for.
pub open spec fn fmt_command(args: Seq<Seq<char>>) -> Result<CommandV, ErrV> {
    let files = fmt_files(args, args.len() as int);
    if files.len() == 0 {
        lacking(
            "missing file: `hone fmt [-w] <file.hn>...`"@,
            "pass one or more .hn files, e.g. `hone fmt -w *.hn`"@,
        )
    } else {
        Ok(CommandV::Fmt(args.contains("-w"@) || args.contains("--write"@), files))
    }
}

fn read_fmt(args: &Vec<String>) -> (r: Result<Command, ZError>)
    ensures
        command_r(r) == fmt_command(strs(args@)),
{
    let mut files: Vec<String> = Vec::new();
    assert(strs(files@) =~= Seq::empty());
    let mut write = false;
    let mut i: usize = 0;
    while i < args.len()
        invariant
            i <= args.len(),
            strs(files@) == fmt_files(strs(args@), i as int),
            write == exists|k: int|
                0 <= k < i && (#[trigger] strs(args@)[k] == "-w"@ || strs(args@)[k] == "--write"@),
        decreases args.len() - i,
    {
        assert(strs(args@)[i as int] == args@[i as int]@);
        if eq(args[i].as_str(), "-w") || eq(args[i].as_str(), "--write") {
            write = true;
        } else {
            let ghost was = strs(files@);
            files.push(args[i].clone());
            assert(strs(files@) =~= was.push(args@[i as int]@));
        }
        i = i + 1;
    }
    assert(write == (strs(args@).contains("-w"@) || strs(args@).contains("--write"@)));
    if files.len() == 0 {
        lack("missing file: `hone fmt [-w] <file.hn>...`", "pass one or more .hn files, e.g. `hone fmt -w *.hn`")
    } else {
        Ok(Command::Fmt(write, files))
    }
}

/// What the builder is asked for.
pub open spec fn build_command(args: Seq<Seq<char>>) -> Result<CommandV, ErrV> {
    if args.len() > 0 && args[0] == "--dll"@ {
        if args.len() < 2 {
            lacking("missing script path: `hone build --dll <script.hn>`"@, "run `hone --help` for usage"@)
        } else {
            Ok(CommandV::BuildDll(args[1]))
        }
    } else if args.len() > 0 && args[0] == "--exe"@ {
        let rest = args.skip(1);
        if rest.contains("--version"@) || rest.contains("-V"@) {
            Ok(CommandV::BuildVersion)
        } else {
            match build_args(rest, true) {
                Ok(o) => Ok(CommandV::BuildExe(o)),
                Err(e) => Err(e),
            }
        }
    } else if args.len() > 0 && args[0] == "--script"@ {
        match build_args(args.skip(1), false) {
            Ok(o) => Ok(CommandV::BuildScript(o)),
            Err(e) => Err(e),
        }
    } else {
        lacking(
            "unknown build options: `hone build --dll <script.hn>`, `hone build --exe <script.hn>` or `hone build --script <script.hn>`"@,
            "`--dll` compiles to a shared library; `--exe` bundles the script with the interpreter; `--script` packs the script alone"@,
        )
    }
}

fn read_build(args: &Vec<String>) -> (r: Result<Command, ZError>)
    ensures
        command_r(r) == build_command(strs(args@)),
{
    if args.len() > 0 {
        assert(strs(args@)[0] == args@[0]@);
        let a = args[0].as_str();
        let rest = args_from(args, 1);
        if eq(a, "--dll") {
            if args.len() < 2 {
                return lack("missing script path: `hone build --dll <script.hn>`", "run `hone --help` for usage");
            }
            assert(strs(args@)[1] == args@[1]@);
            return Ok(Command::BuildDll(args[1].clone()));
        }
        if eq(a, "--exe") {
            if crate::codegen::infer::is_in(&rest, "--version") || crate::codegen::infer::is_in(&rest, "-V") {
                return Ok(Command::BuildVersion);
            }
            return match parse_build_args(&rest, true) {
                Ok(o) => Ok(Command::BuildExe(o)),
                Err(e) => Err(e),
            };
        }
        if eq(a, "--script") {
            return match parse_build_args(&rest, false) {
                Ok(o) => Ok(Command::BuildScript(o)),
                Err(e) => Err(e),
            };
        }
    }
    lack(
        "unknown build options: `hone build --dll <script.hn>`, `hone build --exe <script.hn>` or `hone build --script <script.hn>`",
        "`--dll` compiles to a shared library; `--exe` bundles the script with the interpreter; `--script` packs the script alone",
    )
}

/// What a run is asked for.
pub open spec fn run_command(args: Seq<Seq<char>>) -> Result<CommandV, ErrV> {
    let (o, rest) = run_args(args);
    if rest.len() == 0 {
        lacking("missing script path: `hone run <script.hn>`"@, "run `hone --help` for usage"@)
    } else {
        Ok(CommandV::Run(o, rest[0], rest.skip(1)))
    }
}

fn read_run(args: &Vec<String>) -> (r: Result<Command, ZError>)
    ensures
        command_r(r) == run_command(strs(args@)),
        r matches Ok(Command::Run(o, _, _)) ==> (o.restart matches Some(p) ==> p.backoff.len() > 0),
{
    let (o, rest) = parse_run_args(args);
    if rest.len() == 0 {
        return lack("missing script path: `hone run <script.hn>`", "run `hone --help` for usage");
    }
    assert(strs(rest@)[0] == rest@[0]@);
    Ok(Command::Run(o, rest[0].clone(), args_from(&rest, 1)))
}

/// What a command with the arguments behind its name asks for.
pub open spec fn named_command(name: Seq<char>, rest: Seq<Seq<char>>) -> Result<CommandV, ErrV> {
    if name == "--help"@ || name == "-h"@ || name == "help"@ {
        Ok(CommandV::Help)
    } else if name == "--version"@ || name == "-V"@ || name == "version"@ {
        Ok(CommandV::Version)
    } else if name == "run"@ {
        run_command(rest)
    } else if name == "debug"@ {
        if rest.len() == 0 {
            lacking("missing script path: `hone debug <script.hn>`"@, "run `hone --help` for usage"@)
        } else {
            Ok(CommandV::Debug(rest[0], rest.skip(1)))
        }
    } else if name == "fmt"@ {
        fmt_command(rest)
    } else if name == "test"@ {
        Ok(
            CommandV::Test(
                if rest.len() == 0 {
                    "."@
                } else {
                    rest[0]
                },
            ),
        )
    } else if name == "bind"@ {
        if rest.len() == 0 {
            lacking(
                "missing header path: `hone bind <header.h>`"@,
                "example: `hone bind /usr/include/sqlite3.h`"@,
            )
        } else {
            Ok(CommandV::Bind(rest[0]))
        }
    } else if name == "build"@ {
        build_command(rest)
    } else if name == "get"@ {
        if rest.len() == 1 {
            Ok(CommandV::GetScript(rest[0]))
        } else if rest.len() == 2 {
            Ok(CommandV::GetModule(rest[0], rest[1]))
        } else {
            lacking(
                "usage: `hone get <module> <url>` or `hone get <script.hn>`"@,
                "run `hone --help` for usage"@,
            )
        }
    } else if name == "self-update"@ {
        Ok(
            CommandV::SelfUpdate(
                if rest.len() == 0 {
                    None
                } else {
                    Some(rest[0])
                },
            ),
        )
    } else if name == "lsp"@ {
        Ok(CommandV::Lsp)
    } else if name == "poop"@ {
        if rest.len() == 0 {
            lacking(
                "missing file: `hone poop <file.hn>`"@,
                "pass a .hn file to analyze, e.g. `hone poop mycode.hn`"@,
            )
        } else {
            Ok(CommandV::Poop(rest[0]))
        }
    } else if name == "explain"@ {
        if rest.len() == 0 {
            lacking("missing error code: `hone explain <code>`"@, "example: `hone explain H201`"@)
        } else {
            Ok(CommandV::Explain(rest[0]))
        }
    } else if ends(name, ".hn"@) || ends(name, ".hzp"@) {
        Ok(CommandV::Run(OptionsV { restart: None, resume: false }, name, rest))
    } else {
        lacking("unknown command `"@ + name + "`"@, "run `hone --help` for usage"@)
    }
}

/// What arguments ask for; help where there are none.
pub open spec fn command_of(args: Seq<Seq<char>>) -> Result<CommandV, ErrV> {
    if args.len() == 0 {
        Ok(CommandV::Help)
    } else {
        named_command(args[0], args.skip(1))
    }
}

/// Reads what arguments ask for. A run that is to be taken up again has a time to wait.
pub fn run_cli(args: &Vec<String>) -> (r: Result<Command, ZError>)
    ensures
        command_r(r) == command_of(strs(args@)),
        r matches Ok(Command::Run(o, _, _)) ==> (o.restart matches Some(p) ==> p.backoff.len() > 0),
{
    if args.len() == 0 {
        return Ok(Command::Help);
    }
    assert(strs(args@)[0] == args@[0]@);
    let name = args[0].as_str();
    let rest = args_from(args, 1);
    assert(rest.len() > 0 ==> strs(rest@)[0] == rest@[0]@);
    assert(rest.len() > 1 ==> strs(rest@)[1] == rest@[1]@);
    if eq(name, "--help") || eq(name, "-h") || eq(name, "help") {
        Ok(Command::Help)
    } else if eq(name, "--version") || eq(name, "-V") || eq(name, "version") {
        Ok(Command::Version)
    } else if eq(name, "run") {
        read_run(&rest)
    } else if eq(name, "debug") {
        if rest.len() == 0 {
            lack("missing script path: `hone debug <script.hn>`", "run `hone --help` for usage")
        } else {
            Ok(Command::Debug(rest[0].clone(), args_from(&rest, 1)))
        }
    } else if eq(name, "fmt") {
        read_fmt(&rest)
    } else if eq(name, "test") {
        if rest.len() == 0 {
            Ok(Command::Test(".".to_owned()))
        } else {
            Ok(Command::Test(rest[0].clone()))
        }
    } else if eq(name, "bind") {
        if rest.len() == 0 {
            lack("missing header path: `hone bind <header.h>`", "example: `hone bind /usr/include/sqlite3.h`")
        } else {
            Ok(Command::Bind(rest[0].clone()))
        }
    } else if eq(name, "build") {
        read_build(&rest)
    } else if eq(name, "get") {
        if rest.len() == 1 {
            Ok(Command::GetScript(rest[0].clone()))
        } else if rest.len() == 2 {
            Ok(Command::GetModule(rest[0].clone(), rest[1].clone()))
        } else {
            lack("usage: `hone get <module> <url>` or `hone get <script.hn>`", "run `hone --help` for usage")
        }
    } else if eq(name, "self-update") {
        if rest.len() == 0 {
            Ok(Command::SelfUpdate(None))
        } else {
            Ok(Command::SelfUpdate(Some(rest[0].clone())))
        }
    } else if eq(name, "lsp") {
        Ok(Command::Lsp)
    } else if eq(name, "poop") {
        if rest.len() == 0 {
            lack("missing file: `hone poop <file.hn>`", "pass a .hn file to analyze, e.g. `hone poop mycode.hn`")
        } else {
            Ok(Command::Poop(rest[0].clone()))
        }
    } else if eq(name, "explain") {
        if rest.len() == 0 {
            lack("missing error code: `hone explain <code>`", "example: `hone explain H201`")
        } else {
            Ok(Command::Explain(rest[0].clone()))
        }
    } else if ends_with(name, ".hn") || ends_with(name, ".hzp") {
        Ok(Command::Run(RunOptions { restart: None, resume: false }, args[0].clone(), rest))
    } else {
        let msg = cat3("unknown command `", name, "`");
        lack(msg.as_str(), "run `hone --help` for usage")
    }
}

/// What is said of an error code, or that it is unknown.
pub open spec fn explained(code: Seq<char>) -> Result<Seq<char>, ErrV> {
    match explanation(code) {
        Some(t) => Ok("error["@ + code + "]\n"@ + t),
        None => Err(
            err_plain(
                codes::NOT_FOUND@,
                "unknown error code `"@ + code + "`"@,
                Some("run `hone explain` with a Hxxx code listed in the docs"@),
            ),
        ),
    }
}

/// What is said of an error code.
pub fn explain_code(code: &str) -> (r: Result<String, ZError>)
    ensures
        crate::codegen::text_r(r) == explained(code@),
{
    match explain(code) {
        Some(t) => Ok(cat4("error[", code, "]\n", t)),
        None => {
            let msg = cat3("unknown error code `", code, "`");
            Err(
                ZError::plain(
                    codes::NOT_FOUND,
                    msg.as_str(),
                    Some("run `hone explain` with a Hxxx code listed in the docs"),
                ),
            )
        },
    }
}

/// What is said behind all test files.
pub open spec fn tally_text(passed: nat, failed: nat) -> Seq<char> {
    dec(passed) + " passed, "@ + dec(failed) + " failed ("@ + dec(passed + failed) + " total)"@
}

/// What is said behind all test files.
pub fn tally(passed: usize, failed: usize) -> (r: String)
    requires
        passed + failed <= usize::MAX,
    ensures
        r@ == tally_text(passed as nat, failed as nat),
{
    let p = dec_usize(passed);
    let f = dec_usize(failed);
    let t = dec_usize(passed + failed);
    let head = cat4(p.as_str(), " passed, ", f.as_str(), " failed (");
    let r = cat3(head.as_str(), t.as_str(), " total)");
    assert(r@ =~= tally_text(passed as nat, failed as nat));
    r
}

/// What test files come to: an error where one failed.
pub fn test_result(passed: usize, failed: usize) -> (r: Result<(), ZError>)
    requires
        passed + failed <= usize::MAX,
    ensures
        match r {
            Ok(()) => failed == 0,
            Err(e) => failed > 0 && e@ == err_plain(
                codes::ASSERT@,
                dec(failed as nat) + " of "@ + dec((passed + failed) as nat) + " test file(s) failed"@,
                None,
            ),
        },
{
    if failed == 0 {
        return Ok(());
    }
    let f = dec_usize(failed);
    let t = dec_usize(passed + failed);
    let msg = cat4(f.as_str(), " of ", t.as_str(), " test file(s) failed");
    Err(ZError::plain(codes::ASSERT, msg.as_str(), None))
}

/// Parameters of a signature, as they are declared.
pub open spec fn param_decls(ps: Seq<FfiParamV>) -> Seq<Seq<char>> {
    ps.map_values(|p: FfiParamV| p.name + ": "@ + p.ty.text())
}

/// The declaration of a signature.
pub open spec fn sig_decl(s: FfiSigV) -> Seq<char> {
    let ps = param_decls(s.params);
    "    fn "@ + s.name + "("@ + joined_by(ps, ", "@, ps.len() as int) + ") -> "@ + s.ret.text() + ";\n"@
}

/// The declarations of the first `n` signatures that can be called.
pub open spec fn good_decls(ss: Seq<FfiSigV>, n: int) -> Seq<char>
    decreases n,
{
    if n <= 0 || n > ss.len() {
        Seq::empty()
    } else {
        match ss[n - 1].unsupported {
            None => good_decls(ss, n - 1) + sig_decl(ss[n - 1]),
            Some(_) => good_decls(ss, n - 1),
        }
    }
}

/// The notes on the first `n` signatures that cannot be called.
pub open spec fn bad_decls(ss: Seq<FfiSigV>, n: int) -> Seq<char>
    decreases n,
{
    if n <= 0 || n > ss.len() {
        Seq::empty()
    } else {
        match ss[n - 1].unsupported {
            None => bad_decls(ss, n - 1),
            Some(why) => bad_decls(ss, n - 1) + ("    // fn "@ + ss[n - 1].name + "() -> int;  // "@ + why + "\n"@),
        }
    }
}

/// How many of the first `n` signatures can be called.
pub open spec fn good_count(ss: Seq<FfiSigV>, n: int) -> nat
    decreases n,
{
    if n <= 0 || n > ss.len() {
        0
    } else if ss[n - 1].unsupported is None {
        good_count(ss, n - 1) + 1
    } else {
        good_count(ss, n - 1)
    }
}

/// The signature block that the prototypes of a header give.
pub open spec fn bind_text(path: Seq<char>, ss: Seq<FfiSigV>) -> Seq<char> {
    let n = ss.len() as int;
    let good = good_count(ss, n);
    let bad = (n - good) as nat;
    "// 由 hone bind "@ + path + " 生成（受限 C 原型提取，纯 Rust 实现）\n// 用法一：load \"你的动态库\" as lib from \""@ + path
        + "\";\n// 用法二：把下面的签名块粘贴进脚本：\nload \"你的动态库\" as lib {\n"@ + good_decls(ss, n) + (if bad > 0 {
        "    // 以下原型因受限解析器不支持而跳过（回调/变参/数组/结构体等）：\n"@ + bad_decls(ss, n)
    } else {
        Seq::empty()
    }) + "}\n// 统计：共 "@ + dec(ss.len()) + " 个原型，"@ + dec(good) + " 个可直接绑定，"@ + dec(bad) + " 个不支持"@
}

fn declare_sig(s: &FfiSig) -> (r: String)
    ensures
        r@ == sig_decl(s@),
{
    let mut ps: Vec<String> = Vec::new();
    let mut i: usize = 0;
    while i < s.params.len()
        invariant
            i <= s.params.len(),
            ps.len() == i,
            forall|k: int|
                0 <= k < i ==> (#[trigger] ps@[k])@ == s.params@[k].name@ + ": "@ + s.params@[k].ty.text(),
        decreases s.params.len() - i,
    {
        ps.push(cat3(s.params[i].name.as_str(), ": ", s.params[i].ty.name()));
        i = i + 1;
    }
    assert(strs(ps@) =~= param_decls(ffi_params_v(s.params@)));
    let list = join(&ps, ", ");
    cat7("    fn ", s.name.as_str(), "(", list.as_str(), ") -> ", s.ret.name(), ";\n")
}

/// The signature block that the prototypes of a header give.
pub fn bind(path: &str, ss: &Vec<FfiSig>) -> (r: String)
    ensures
        r@ == bind_text(path@, sigs_v(ss@)),
{
    let mut good = String::new();
    let mut bad = String::new();
    let mut goods: usize = 0;
    let mut i: usize = 0;
    while i < ss.len()
        invariant
            i <= ss.len(),
            goods <= i,
            good@ == good_decls(sigs_v(ss@), i as int),
            bad@ == bad_decls(sigs_v(ss@), i as int),
            goods == good_count(sigs_v(ss@), i as int),
        decreases ss.len() - i,
    {
        assert(sigs_v(ss@)[i as int] == ss@[i as int]@);
        match ss[i].unsupported {
            None => {
                let d = declare_sig(&ss[i]);
                good.append(d.as_str());
                goods = goods + 1;
            },
            Some(why) => {
                let d = cat5("    // fn ", ss[i].name.as_str(), "() -> int;  // ", why, "\n");
                bad.append(d.as_str());
            },
        }
        i = i + 1;
    }
    let bads: usize = ss.len() - goods;
    let all = dec_usize(ss.len());
    let g = dec_usize(goods);
    let b = dec_usize(bads);
    let head = cat5(
        "// 由 hone bind ",
        path,
        " 生成（受限 C 原型提取，纯 Rust 实现）\n// 用法一：load \"你的动态库\" as lib from \"",
        path,
        "\";\n// 用法二：把下面的签名块粘贴进脚本：\nload \"你的动态库\" as lib {\n",
    );
    let skipped = if bads > 0 {
        cat2("    // 以下原型因受限解析器不支持而跳过（回调/变参/数组/结构体等）：\n", bad.as_str())
    } else {
        String::new()
    };
    let body = cat3(head.as_str(), good.as_str(), skipped.as_str());
    let r = cat7(
        body.as_str(),
        "}\n// 统计：共 ",
        all.as_str(),
        " 个原型，",
        g.as_str(),
        " 个可直接绑定，",
        b.as_str(),
    );
    let r = cat2(r.as_str(), " 个不支持");
    assert(r@ =~= bind_text(path@, sigs_v(ss@)));
    r
}

} // verus!
