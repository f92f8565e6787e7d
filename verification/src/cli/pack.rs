//! Building programs, packages and libraries from scripts.

use vstd::prelude::*;

use super::run::behind;
use crate::ast::{stmt_v, stmts_v, Program, Stmt, StmtV};
use crate::builtins::http::{parse_short, short_of};
use crate::builtins::path::{basename, file_stem, last_part, stem_of};
use crate::bundle::{build, build_script_pkg, bundle, package_of, parse_script_pkg, script_package};
use crate::bytes::{read_text, text_of};
use crate::checker::rules::{verdict, HeadersV};
use crate::checker::{headers_v, Checker, HeaderRead};
use crate::codegen::{codegen_of, collect_exports, float_map, generate, generated};
use crate::codegen::reach::{exports_of, stmts_cfns};
use crate::error::{codes, err_plain, ErrV, ZError};
use crate::parser::grammar::program_of;
use crate::parser::Parser;
use crate::table::Table;
use crate::text::{cat2, cat3, cat5, cat7, chars, dec, dec_u64, eq, strs};
use crate::words::{pieces_at, split_at, starts};

verus! {

/// What a build is to make: from which script, to which file, and with which icon.
pub struct BuildOptions {
    pub path: String,
    pub out: Option<String>,
    pub icon: Option<String>,
}

/// What a build is to make, mathematically.
pub struct BuildV {
    pub path: Seq<char>,
    pub out: Option<Seq<char>>,
    pub icon: Option<Seq<char>>,
}

impl View for BuildOptions {
    type V = BuildV;

    open spec fn view(&self) -> BuildV {
        BuildV {
            path: self.path@,
            out: crate::error::opt_text(self.out),
            icon: crate::error::opt_text(self.icon),
        }
    }
}

/// What a build is to make, as far as it is read.
pub struct PartV {
    pub path: Option<Seq<char>>,
    pub out: Option<Seq<char>>,
    pub icon: Option<Seq<char>>,
}

/// The argument at a place, if there is one.
pub open spec fn arg_at(args: Seq<Seq<char>>, i: int) -> Option<Seq<char>> {
    if 0 <= i < args.len() {
        Some(args[i])
    } else {
        None
    }
}

/// Behind an option and its value.
pub open spec fn past_value(args: Seq<Seq<char>>, i: int) -> int {
    if i + 1 < args.len() {
        i + 2
    } else {
        i + 1
    }
}

/// What arguments from the `i`-th on say of a build, behind what was read. Only a program has
/// an icon.
pub open spec fn build_from(args: Seq<Seq<char>>, i: int, exe: bool, o: PartV) -> Result<PartV, ErrV>
    decreases args.len() - i,
{
    if i < 0 || i >= args.len() {
        Ok(o)
    } else {
        let a = args[i];
        if a == "-o"@ {
            build_from(args, past_value(args, i), exe, PartV { out: arg_at(args, i + 1), ..o })
        } else if exe && a == "--icon"@ {
            build_from(args, past_value(args, i), exe, PartV { icon: arg_at(args, i + 1), ..o })
        } else if starts(a, "--out="@) {
            build_from(args, i + 1, exe, PartV { out: Some(a.skip("--out="@.len() as int)), ..o })
        } else if exe && starts(a, "--icon="@) {
            build_from(args, i + 1, exe, PartV { icon: Some(a.skip("--icon="@.len() as int)), ..o })
        } else if a.len() > 0 && a[0] == '-' {
            Err(
                err_plain(
                    codes::SYNTAX@,
                    "unknown build option `"@ + a + "`"@,
                    Some(
                        if exe {
                            "options: `-o <out>`, `--icon <ico>`, `--version`"@
                        } else {
                            "options: `-o <out>`"@
                        },
                    ),
                ),
            )
        } else if o.path is Some {
            Err(
                err_plain(
                    codes::SYNTAX@,
                    "too many arguments"@,
                    Some(
                        if exe {
                            "usage: `hone build --exe <script.hn> [-o <out>]`"@
                        } else {
                            "usage: `hone build --script <script.hn> [-o <out>]`"@
                        },
                    ),
                ),
            )
        } else {
            build_from(args, i + 1, exe, PartV { path: Some(a), ..o })
        }
    }
}

/// What arguments say of a build.
pub open spec fn build_args(args: Seq<Seq<char>>, exe: bool) -> Result<BuildV, ErrV> {
    match build_from(args, 0, exe, PartV { path: None, out: None, icon: None }) {
        Err(e) => Err(e),
        Ok(o) => match o.path {
            Some(path) => Ok(BuildV { path, out: o.out, icon: o.icon }),
            None => Err(
                err_plain(
                    codes::SYNTAX@,
                    if exe {
                        "missing script path: `hone build --exe <script.hn>`"@
                    } else {
                        "missing script path: `hone build --script <script.hn>`"@
                    },
                    Some("run `hone --help` for usage"@),
                ),
            ),
        },
    }
}

/// What reading the arguments of a build comes to, mathematically.
pub open spec fn build_r(r: Result<BuildOptions, ZError>) -> Result<BuildV, ErrV> {
    match r {
        Ok(o) => Ok(o@),
        Err(e) => Err(e@),
    }
}

fn arg(args: &Vec<String>, i: usize) -> (r: Option<String>)
    ensures
        crate::error::opt_text(r) == arg_at(strs(args@), i as int),
{
    if i < args.len() {
        assert(strs(args@)[i as int] == args@[i as int]@);
        Some(args[i].clone())
    } else {
        None
    }
}

fn is_option(a: &str) -> (r: bool)
    ensures
        r == (a@.len() > 0 && a@[0] == '-'),
{
    let v = chars(a);
    v.len() > 0 && v[0] == '-'
}

/// Reads the arguments of a build of a program, or of a package.
#[verifier::rlimit(40)]
pub fn parse_build_args(args: &Vec<String>, exe: bool) -> (r: Result<BuildOptions, ZError>)
    ensures
        build_r(r) == build_args(strs(args@), exe),
{
    let mut path: Option<String> = None;
    let mut out: Option<String> = None;
    let mut icon: Option<String> = None;
    let mut i: usize = 0;
    let ghost goal = build_from(strs(args@), 0, exe, PartV { path: None, out: None, icon: None });
    while i < args.len()
        invariant
            i <= args.len(),
            goal == build_from(strs(args@), 0, exe, PartV { path: None, out: None, icon: None }),
            build_from(
                strs(args@),
                i as int,
                exe,
                PartV {
                    path: crate::error::opt_text(path),
                    out: crate::error::opt_text(out),
                    icon: crate::error::opt_text(icon),
                },
            ) == goal,
        decreases args.len() - i,
    {
        assert(strs(args@)[i as int] == args@[i as int]@);
        let a = args[i].as_str();
        if eq(a, "-o") {
            out = arg(args, i + 1);
            i = if i + 1 < args.len() { i + 2 } else { i + 1 };
        } else if exe && eq(a, "--icon") {
            icon = arg(args, i + 1);
            i = if i + 1 < args.len() { i + 2 } else { i + 1 };
        } else if let Some(t) = behind(a, "--out=") {
            out = Some(t);
            i = i + 1;
        } else if let (true, Some(t)) = (exe, behind(a, "--icon=")) {
            icon = Some(t);
            i = i + 1;
        } else if is_option(a) {
            let msg = cat3("unknown build option `", a, "`");
            let help = if exe {
                "options: `-o <out>`, `--icon <ico>`, `--version`"
            } else {
                "options: `-o <out>`"
            };
            return Err(ZError::plain(codes::SYNTAX, msg.as_str(), Some(help)));
        } else if path.is_some() {
            let help = if exe {
                "usage: `hone build --exe <script.hn> [-o <out>]`"
            } else {
                "usage: `hone build --script <script.hn> [-o <out>]`"
            };
            return Err(ZError::plain(codes::SYNTAX, "too many arguments", Some(help)));
        } else {
            path = Some(args[i].clone());
            i = i + 1;
        }
    }
    match path {
        Some(path) => Ok(BuildOptions { path, out, icon }),
        None => {
            let msg = if exe {
                "missing script path: `hone build --exe <script.hn>`"
            } else {
                "missing script path: `hone build --script <script.hn>`"
            };
            Err(ZError::plain(codes::SYNTAX, msg, Some("run `hone --help` for usage")))
        },
    }
}

/// A number of a version: zero where there is none.
pub open spec fn version_part(ps: Seq<Seq<char>>, i: int) -> u16 {
    if i < ps.len() {
        match short_of(ps[i]) {
            Some(n) => n as u16,
            None => 0,
        }
    } else {
        0
    }
}

/// The three numbers of a version.
pub open spec fn version_of(v: Seq<char>) -> (u16, u16, u16) {
    let ps = pieces_at(v, '.');
    (version_part(ps, 0), version_part(ps, 1), version_part(ps, 2))
}

fn version_number(ps: &Vec<String>, i: usize) -> (r: u16)
    ensures
        r == version_part(strs(ps@), i as int),
{
    if i < ps.len() {
        assert(strs(ps@)[i as int] == ps@[i as int]@);
        match parse_short(ps[i].as_str()) {
            Some(n) => n as u16,
            None => 0,
        }
    } else {
        0
    }
}

/// The three numbers of a version.
pub fn parse_version(v: &str) -> (r: (u16, u16, u16))
    ensures
        r == version_of(v@),
{
    let ps = split_at(v, '.');
    (version_number(&ps, 0), version_number(&ps, 1), version_number(&ps, 2))
}

/// The name of a script.
pub open spec fn script_name(windows: bool, path: Seq<char>) -> Seq<char> {
    if last_part(windows, path).len() == 0 {
        "script.hn"@
    } else {
        last_part(windows, path)
    }
}

/// The name of a script.
pub fn name_of_script(windows: bool, path: &str) -> (r: String)
    ensures
        r@ == script_name(windows, path@),
{
    let f = basename(windows, path);
    if chars(f.as_str()).len() == 0 {
        "script.hn".to_owned()
    } else {
        f
    }
}

/// A file beside a script: its name with another ending.
pub open spec fn beside(windows: bool, path: Seq<char>, default: Seq<char>, ending: Seq<char>) -> Seq<char> {
    (if stem_of(windows, path).len() == 0 {
        default
    } else {
        stem_of(windows, path)
    }) + ending
}

/// A file beside a script.
pub fn file_beside(windows: bool, path: &str, default: &str, ending: &str) -> (r: String)
    ensures
        r@ == beside(windows, path@, default@, ending@),
{
    let f = file_stem(windows, path);
    if chars(f.as_str()).len() == 0 {
        cat2(default, ending)
    } else {
        cat2(f.as_str(), ending)
    }
}

/// What a build made: the bytes, the file that they belong in, and the name of the script.
pub struct Built {
    pub bytes: Vec<u8>,
    pub out: String,
    pub name: String,
    pub version: (u16, u16, u16),
}

/// Where a build goes.
pub open spec fn out_of(windows: bool, o: BuildV, ending: Seq<char>) -> Seq<char> {
    match o.out {
        Some(f) => f,
        None => beside(windows, o.path, "app"@, ending),
    }
}

/// Builds a program: a runtime with a script behind it.
pub fn build_exe(o: &BuildOptions, hone: &[u8], script: &str, version: &str, timestamp: u64, windows: bool) -> (
    r: Built)
    ensures
        r.version == version_of(version@),
        r.name@ == script_name(windows, o@.path),
        r.bytes@ == bundle(hone@, script@, script_name(windows, o@.path), version_of(version@), timestamp),
        r.out@ == out_of(windows, o@, ".exe"@),
{
    let name = name_of_script(windows, o.path.as_str());
    let version = parse_version(version);
    let bytes = build(hone, script, name.as_str(), version, timestamp);
    let out = match &o.out {
        Some(f) => f.clone(),
        None => file_beside(windows, o.path.as_str(), "app", ".exe"),
    };
    Built { bytes, out, name, version }
}

/// Builds a package of a script alone.
pub fn build_package(o: &BuildOptions, script: &str, windows: bool) -> (r: Built)
    ensures
        r.name@ == script_name(windows, o@.path),
        r.bytes@ == script_package(script@, script_name(windows, o@.path)),
        r.out@ == out_of(windows, o@, ".hzp"@),
        r.version == (0u16, 0u16, 0u16),
{
    let name = name_of_script(windows, o.path.as_str());
    let bytes = build_script_pkg(script, name.as_str());
    let out = match &o.out {
        Some(f) => f.clone(),
        None => file_beside(windows, o.path.as_str(), "app", ".hzp"),
    };
    Built { bytes, out, name, version: (0, 0, 0) }
}

/// What is said of a program that was built; `kb` is its size.
pub open spec fn exe_line(out: Seq<char>, name: Seq<char>, v: (u16, u16, u16), kb: Seq<char>) -> Seq<char> {
    "生成 "@ + out + " 完成（脚本: "@ + name + ", Hone v"@ + dec(v.0 as nat) + "."@ + dec(v.1 as nat) + "."@ + dec(
        v.2 as nat,
    ) + ", "@ + kb + " KB）"@
}

/// What is said of a program that was built.
pub fn built_line(b: &Built, kb: &str) -> (r: String)
    ensures
        r@ == exe_line(b.out@, b.name@, b.version, kb@),
{
    let x = dec_u64(b.version.0 as u64);
    let y = dec_u64(b.version.1 as u64);
    let z = dec_u64(b.version.2 as u64);
    let v = cat5(x.as_str(), ".", y.as_str(), ".", z.as_str());
    let head = cat5("生成 ", b.out.as_str(), " 完成（脚本: ", b.name.as_str(), ", Hone v");
    let t = cat5(head.as_str(), v.as_str(), ", ", kb, " KB）");
    assert(t@ =~= exe_line(b.out@, b.name@, b.version, kb@));
    t
}

/// What is said of a package that was built.
pub fn packed_line(out: &str, kb: &str) -> (r: String)
    ensures
        r@ == "生成 "@ + out@ + " 完成（仅脚本包, "@ + kb@ + " KB；运行: hone run "@ + out@ + "）"@,
{
    cat7("生成 ", out, " 完成（仅脚本包, ", kb, " KB；运行: hone run ", out, "）")
}

/// The name and the text of a script file: those of a package, or its path and its text.
pub open spec fn script_in(path: Seq<char>, data: Seq<u8>) -> (Seq<char>, Seq<char>) {
    match package_of(data) {
        Some(p) => p,
        None => (path, text_of(data)),
    }
}

/// The name and the text of a script file.
pub fn open_script(path: &str, data: &[u8]) -> (r: (String, String))
    ensures
        (r.0@, r.1@) == script_in(path@, data@),
{
    match parse_script_pkg(data) {
        Some(p) => p,
        None => (path.to_owned(), read_text(data)),
    }
}

/// A program that was read and checked, or the first error.
pub open spec fn loaded(
    file: Seq<char>,
    src: Seq<char>,
    headers: HeadersV,
) -> Result<Seq<StmtV>, ErrV> {
    match program_of(file, src) {
        Err(e) => Err(e),
        Ok(p) => match verdict(file, src, headers, p) {
            Err(e) => Err(e),
            Ok(_) => Ok(p),
        },
    }
}

/// A program that was read and checked, mathematically.
pub open spec fn program_r(r: Result<Program, ZError>) -> Result<Seq<StmtV>, ErrV> {
    match r {
        Ok(p) => Ok(p@),
        Err(e) => Err(e@),
    }
}

/// Reads a program and checks it.
pub fn load_program(file: &str, src: &str, headers: &Table<HeaderRead>) -> (r: Result<Program, ZError>)
    requires
        headers.wf(),
    ensures
        program_r(r) == loaded(file@, src@, headers_v(headers@)),
{
    match Parser::parse(file, src) {
        Err(e) => Err(e),
        Ok(p) => match Checker::check(&p, file, src, headers) {
            Err(e) => Err(e),
            Ok(()) => Ok(p),
        },
    }
}

/// The error of a library without exports.
pub open spec fn no_exports() -> ErrV {
    err_plain(
        codes::NOT_IMPLEMENTED@,
        "no `@export` declaration found"@,
        Some("add `@export 函数名;` to the script and rebuild"@),
    )
}

/// The C text of a library, and the names that it exports.
pub open spec fn library_of(
    file: Seq<char>,
    src: Seq<char>,
    headers: HeadersV,
    floats: Map<Seq<char>, Seq<char>>,
    windows: bool,
) -> Result<(Seq<char>, Seq<Seq<char>>), ErrV> {
    match loaded(file, src, headers) {
        Err(e) => Err(e),
        Ok(p) => {
            let es = exports_of(p, p.len() as int, Seq::empty());
            if es.len() == 0 {
                Err(no_exports())
            } else {
                match generated(
                    codegen_of(
                        p,
                        file,
                        src,
                        floats,
                        windows,
                        stmts_cfns(p, p.len() as int, Map::empty()).dom().len(),
                    ),
                    es,
                ) {
                    Err(e) => Err(e),
                    Ok(c) => Ok((c, es)),
                }
            }
        },
    }
}

/// The C text of a library, mathematically.
pub open spec fn library_r(r: Result<(String, Vec<String>), ZError>) -> Result<(Seq<char>, Seq<Seq<char>>), ErrV> {
    match r {
        Ok(p) => Ok((p.0@, strs(p.1@))),
        Err(e) => Err(e@),
    }
}

/// Translates a script to the C text of a library.
pub fn build_library(
    file: &str,
    src: &str,
    headers: &Table<HeaderRead>,
    floats: &Vec<(String, String)>,
    windows: bool,
) -> (r: Result<(String, Vec<String>), ZError>)
    requires
        headers.wf(),
    ensures
        library_r(r) == library_of(
            file@,
            src@,
            headers_v(headers@),
            float_map(floats@, floats.len() as int),
            windows,
        ),
{
    let p = match load_program(file, src, headers) {
        Err(e) => {
            return Err(e);
        },
        Ok(p) => p,
    };
    let es = collect_exports(&p);
    if es.len() == 0 {
        return Err(
            ZError::plain(
                codes::NOT_IMPLEMENTED,
                "no `@export` declaration found",
                Some("add `@export 函数名;` to the script and rebuild"),
            ),
        );
    }
    match generate(&p, &es, file, src, floats, windows) {
        Err(e) => Err(e),
        Ok(c) => Ok((c, es)),
    }
}

/// The modules that a script names, with those of a statement.
pub open spec fn stmt_imports(s: StmtV, done: Seq<(Seq<char>, Seq<char>)>) -> Seq<(Seq<char>, Seq<char>)>
    decreases s, 0int,
{
    match s {
        StmtV::Import { name, url, .. } => done.push((name, url)),
        StmtV::Block { stmts, .. } => imports_of(stmts, stmts.len() as int, done),
        StmtV::If { then_branch, else_branch, .. } => {
            let d = imports_of(then_branch, then_branch.len() as int, done);
            match else_branch {
                Some(b) => imports_of(b, b.len() as int, d),
                None => d,
            }
        },
        StmtV::While { body, .. } => imports_of(body, body.len() as int, done),
        StmtV::ForIn { body, .. } => imports_of(body, body.len() as int, done),
        StmtV::FnDef { body, .. } => imports_of(body, body.len() as int, done),
        StmtV::Try { body, handler, .. } => imports_of(
            handler,
            handler.len() as int,
            imports_of(body, body.len() as int, done),
        ),
        _ => done,
    }
}

/// The modules that a script names, with those of the first `n` statements.
pub open spec fn imports_of(ss: Seq<StmtV>, n: int, done: Seq<(Seq<char>, Seq<char>)>) -> Seq<(Seq<char>, Seq<char>)>
    decreases ss, n,
{
    if n <= 0 || n > ss.len() {
        done
    } else {
        stmt_imports(ss[n - 1], imports_of(ss, n - 1, done))
    }
}

/// Collects the modules that statements name.
pub fn collect_imports(ss: &Vec<Stmt>, out: &mut Vec<(String, String)>)
    ensures
        crate::builtins::json::pairs_v(final(out)@) == imports_of(
            stmts_v(ss@),
            ss.len() as int,
            crate::builtins::json::pairs_v(old(out)@),
        ),
    decreases ss,
{
    let ghost d0 = crate::builtins::json::pairs_v(out@);
    let mut i: usize = 0;
    while i < ss.len()
        invariant
            i <= ss.len(),
            crate::builtins::json::pairs_v(out@) == imports_of(stmts_v(ss@), i as int, d0),
        decreases ss.len() - i,
    {
        let s = &ss[i];
        let ghost was = crate::builtins::json::pairs_v(out@);
        assert(stmts_v(ss@)[i as int] == stmt_v(ss@[i as int]));
        assert(decreases_to!(ss@ => ss@[i as int]));
        match s {
            Stmt::Import { name, url, .. } => {
                out.push((name.clone(), url.clone()));
                assert(crate::builtins::json::pairs_v(out@) =~= was.push((name@, url@)));
            },
            Stmt::Block { stmts, .. } => collect_imports(stmts, out),
            Stmt::If { then_branch, else_branch, .. } => {
                collect_imports(then_branch, out);
                if let Some(b) = else_branch {
                    collect_imports(b, out);
                }
            },
            Stmt::While { body, .. } => collect_imports(body, out),
            Stmt::ForIn { body, .. } => collect_imports(body, out),
            Stmt::FnDef { body, .. } => collect_imports(body, out),
            Stmt::Try { body, handler, .. } => {
                collect_imports(body, out);
                collect_imports(handler, out);
            },
            _ => {},
        }
        assert(crate::builtins::json::pairs_v(out@) == stmt_imports(stmts_v(ss@)[i as int], was));
        i = i + 1;
    }
}

/// Whether bytes are a program of the system.
pub open spec fn is_program(bytes: Seq<u8>, windows: bool) -> bool {
    if windows {
        bytes.len() > 0x40 && bytes[0] == 0x4d && bytes[1] == 0x5a
    } else {
        bytes.len() >= 4 && bytes[0] == 0x7f && bytes[1] == 0x45 && bytes[2] == 0x4c && bytes[3] == 0x46
    }
}

/// Checks that what was fetched is a program of the system.
pub fn check_update(bytes: &[u8], windows: bool) -> (r: Result<(), ZError>)
    ensures
        match r {
            Ok(()) => is_program(bytes@, windows),
            Err(e) => !is_program(bytes@, windows) && e@ == err_plain(
                codes::NETWORK@,
                "downloaded file is not a valid hone executable ("@ + dec(bytes@.len()) + " bytes)"@,
                Some("check the URL points to a hone binary for this platform"@),
            ),
        },
{
    let ok = if windows {
        bytes.len() > 0x40 && bytes[0] == 0x4d && bytes[1] == 0x5a
    } else {
        bytes.len() >= 4 && bytes[0] == 0x7f && bytes[1] == 0x45 && bytes[2] == 0x4c && bytes[3] == 0x46
    };
    if ok {
        Ok(())
    } else {
        let n = crate::text::dec_usize(bytes.len());
        let msg = cat3("downloaded file is not a valid hone executable (", n.as_str(), " bytes)");
        Err(
            ZError::plain(
                codes::NETWORK,
                msg.as_str(),
                Some("check the URL points to a hone binary for this platform"),
            ),
        )
    }
}

} // verus!
