//! Translating exported functions to C: the functions that they need, the types of all of
//! them, and their text.

pub mod emit;
pub mod infer;
pub mod laws;
pub mod meant;
pub mod reach;
pub mod types;

pub use self::reach::collect_exports;

use vstd::prelude::*;

use self::emit::{stmts_code, Gen, GenV};
use self::infer::{first_vars, is_in};
use self::reach::{collect_fns, needed, no_export, stmts_cfns, ReachV};
use self::types::{cfns_v, param_vars, signature, CFn, CType, Codegen, CodegenV};
use crate::ast::{params_v, stmt_v, stmts_v, Param, ParamV, Program, Stmt, StmtV};
use crate::error::{ErrV, ZError};
use crate::table::Table;
use crate::text::{cat3, cat7, strs};
use crate::words::{join, joined_by};

verus! {

/// Whether a statement returns somewhere.
pub open spec fn stmt_returns(s: StmtV) -> bool
    decreases s, 0int,
{
    match s {
        StmtV::Return { .. } => true,
        StmtV::Block { stmts, .. } => returns_in(stmts, stmts.len() as int),
        StmtV::If { then_branch, else_branch, .. } => {
            ||| returns_in(then_branch, then_branch.len() as int)
            ||| match else_branch {
                Some(b) => returns_in(b, b.len() as int),
                None => false,
            }
        },
        StmtV::While { body, .. } => returns_in(body, body.len() as int),
        _ => false,
    }
}

/// Whether one of the first `n` statements returns somewhere.
pub open spec fn returns_in(ss: Seq<StmtV>, n: int) -> bool
    decreases ss, n,
{
    if n <= 0 || n > ss.len() {
        false
    } else {
        returns_in(ss, n - 1) || stmt_returns(ss[n - 1])
    }
}

proof fn lemma_returns(ss: Seq<StmtV>, i: int, n: int)
    requires
        0 <= i <= n <= ss.len(),
        returns_in(ss, i),
    ensures
        returns_in(ss, n),
    decreases n - i,
{
    if i < n {
        lemma_returns(ss, i, n - 1);
    }
}

/// Whether statements return somewhere.
fn has_return(ss: &Vec<Stmt>) -> (r: bool)
    ensures
        r == returns_in(stmts_v(ss@), ss.len() as int),
    decreases ss,
{
    let mut i: usize = 0;
    while i < ss.len()
        invariant
            i <= ss.len(),
            !returns_in(stmts_v(ss@), i as int),
        decreases ss.len() - i,
    {
        let s = &ss[i];
        assert(stmts_v(ss@)[i as int] == stmt_v(ss@[i as int]));
        assert(decreases_to!(ss@ => ss@[i as int]));
        let r = match s {
            Stmt::Return { .. } => true,
            Stmt::Block { stmts, .. } => has_return(stmts),
            Stmt::If { then_branch, else_branch, .. } => if has_return(then_branch) {
                true
            } else {
                match else_branch {
                    Some(b) => has_return(b),
                    None => false,
                }
            },
            Stmt::While { body, .. } => has_return(body),
            _ => false,
        };
        assert(r == stmt_returns(stmts_v(ss@)[i as int]));
        if r {
            proof {
                lemma_returns(stmts_v(ss@), i + 1, ss.len() as int);
            }
            return true;
        }
        i = i + 1;
    }
    false
}

/// Parameters in C.
pub open spec fn param_texts(ps: Seq<ParamV>, ts: Seq<CType>) -> Seq<Seq<char>> {
    Seq::new(ps.len(), |i: int| ts[i].text() + " "@ + ps[i].name)
}

/// The head of a function in C, from its result on.
pub open spec fn head_code(ret: CType, name: Seq<char>, params: Seq<Seq<char>>) -> Seq<char> {
    ret.text() + " "@ + name + "("@ + joined_by(params, ", "@, params.len() as int) + ")"@
}

/// The prototype of a function in C.
pub open spec fn proto_code(g: CodegenV, name: Seq<char>, exported: bool) -> Result<Seq<char>, ErrV> {
    if !g.fns.dom().contains(name) {
        Err(no_export(g, name))
    } else {
        let f = g.fns[name];
        match signature(g, name, f, Seq::empty(), g.count) {
            Err(x) => Err(x),
            Ok(s) => Ok(
                (if exported {
                    ""@
                } else {
                    "static "@
                }) + head_code(s.ret, name, param_texts(f.params, s.params)) + ";\n"@,
            ),
        }
    }
}

/// What stands before the definition of a function in C.
pub open spec fn linkage(windows: bool, exported: bool) -> Seq<char> {
    if !exported {
        "static "@
    } else if windows {
        "__declspec(dllexport) "@
    } else {
        "__attribute__((visibility(\"default\"))) "@
    }
}

/// What stands at the end of a function that never returns itself.
pub open spec fn last_return(ret: CType) -> Seq<char> {
    match ret {
        CType::Void => ""@,
        CType::Str => "    return NULL;\n"@,
        CType::Bool => "    return false;\n"@,
        _ => "    return 0;\n"@,
    }
}

/// The definition of a function in C.
pub open spec fn impl_code(g: CodegenV, name: Seq<char>, exported: bool) -> Result<Seq<char>, ErrV> {
    if !g.fns.dom().contains(name) {
        Err(no_export(g, name))
    } else {
        let f = g.fns[name];
        match signature(g, name, f, Seq::empty(), g.count) {
            Err(x) => Err(x),
            Ok(s) => {
                let head = linkage(g.windows, exported) + head_code(s.ret, name, param_texts(f.params, s.params))
                    + " {\n"@ + (if s.ret == CType::Str {
                    "    static char ka_ret_buf[2048];\n"@
                } else {
                    ""@
                });
                match stmts_code(
                    g,
                    f.body,
                    0,
                    GenV { vars: param_vars(f.params, f.params.len() as int), temps: 0, out: head },
                    s.ret,
                ) {
                    Err(x) => Err(x),
                    Ok(t) => Ok(
                        t.out + (if returns_in(f.body, f.body.len() as int) {
                            ""@
                        } else {
                            last_return(s.ret)
                        }) + "}\n"@,
                    ),
                }
            },
        }
    }
}

/// The prototypes of the functions from the `i`-th on, behind a text.
pub open spec fn protos(g: CodegenV, names: Seq<Seq<char>>, es: Seq<Seq<char>>, i: int, out: Seq<char>) -> Result<
    Seq<char>,
    ErrV,
>
    decreases names.len() - i,
{
    if i < 0 || i >= names.len() {
        Ok(out)
    } else {
        match proto_code(g, names[i], es.contains(names[i])) {
            Err(x) => Err(x),
            Ok(t) => protos(g, names, es, i + 1, out + t),
        }
    }
}

/// The definitions of the functions from the `i`-th on, behind a text.
pub open spec fn impls(g: CodegenV, names: Seq<Seq<char>>, es: Seq<Seq<char>>, i: int, out: Seq<char>) -> Result<
    Seq<char>,
    ErrV,
>
    decreases names.len() - i,
{
    if i < 0 || i >= names.len() {
        Ok(out)
    } else {
        match impl_code(g, names[i], es.contains(names[i])) {
            Err(x) => Err(x),
            Ok(t) => impls(g, names, es, i + 1, out + t + "\n"@),
        }
    }
}

/// The names with the first `n` exports that are not among them.
pub open spec fn with_exports(es: Seq<Seq<char>>, n: int, names: Seq<Seq<char>>) -> Seq<Seq<char>>
    decreases n,
{
    if n <= 0 || n > es.len() {
        names
    } else {
        let before = with_exports(es, n - 1, names);
        if before.contains(es[n - 1]) {
            before
        } else {
            before.push(es[n - 1])
        }
    }
}

/// What stands at the top of the text.
pub open spec fn file_head() -> Seq<char> {
    "// 由 hone build --dll 自动生成，请勿手动编辑\n#include <stdint.h>\n#include <stdbool.h>\n#include <stdio.h>\n#include <string.h>\n\n"@
}

/// The text of exported functions and all that they need in C: the prototypes of all
/// functions, and their definitions.
pub open spec fn generated(g: CodegenV, es: Seq<Seq<char>>) -> Result<Seq<char>, ErrV> {
    match needed(g, es, 0, ReachV { order: Seq::empty(), seen: Seq::empty() }) {
        Err(x) => Err(x),
        Ok(st) => {
            let names = with_exports(es, es.len() as int, st.order);
            match protos(g, names, es, 0, file_head()) {
                Err(x) => Err(x),
                Ok(t) => impls(g, names, es, 0, t + "\n"@),
            }
        },
    }
}

/// The texts of the first `n` floating-point literals.
pub open spec fn float_map(ps: Seq<(String, String)>, n: int) -> Map<Seq<char>, Seq<char>>
    decreases n,
{
    if n <= 0 || n > ps.len() {
        Map::empty()
    } else {
        float_map(ps, n - 1).insert(ps[n - 1].0@, ps[n - 1].1@)
    }
}

/// What writing a text comes to, mathematically.
pub open spec fn text_r(r: Result<String, ZError>) -> Result<Seq<char>, ErrV> {
    match r {
        Ok(s) => Ok(s@),
        Err(e) => Err(e@),
    }
}

fn param_list(ps: &Vec<Param>, ts: &Vec<CType>) -> (r: Vec<String>)
    requires
        ps.len() == ts.len(),
    ensures
        strs(r@) == param_texts(params_v(ps@), ts@),
{
    let mut out: Vec<String> = Vec::new();
    let mut i: usize = 0;
    while i < ps.len()
        invariant
            i <= ps.len(),
            ps.len() == ts.len(),
            out.len() == i,
            forall|k: int| 0 <= k < i ==> (#[trigger] out@[k])@ == ts@[k].text() + " "@ + ps@[k].name@,
        decreases ps.len() - i,
    {
        out.push(cat3(ts[i].c_name(), " ", ps[i].name.as_str()));
        i = i + 1;
    }
    assert(strs(out@) =~= param_texts(params_v(ps@), ts@));
    out
}

/// The types of a function are as many as its parameters.
proof fn lemma_params(g: CodegenV, name: Seq<char>)
    requires
        g.fns.dom().contains(name),
    ensures
        match signature(g, name, g.fns[name], Seq::empty(), g.count) {
            Ok(s) => s.params.len() == g.fns[name].params.len(),
            Err(_) => true,
        },
{
}

impl<'a> Codegen<'a> {
    /// Writes the prototype of a function.
    fn gen_proto(&self, name: &str, exported: bool) -> (r: Result<String, ZError>)
        requires
            self.wf(),
        ensures
            text_r(r) == proto_code(self@, name@, exported),
    {
        let f = match self.fns.get(name) {
            Some(f) => *f,
            None => {
                return Err(self.export_err(name));
            },
        };
        let none: Vec<String> = Vec::new();
        assert(strs(none@) =~= Seq::empty());
        proof {
            lemma_params(self@, name@);
        }
        match self.infer_signature(name, f, &none, self.fns.len()) {
            Err(x) => Err(x),
            Ok(s) => {
                let ps = param_list(f.params, &s.params);
                let list = join(&ps, ", ");
                let prefix = if exported { "" } else { "static " };
                let head = cat7(prefix, s.ret.c_name(), " ", name, "(", list.as_str(), ")");
                let t = crate::text::cat2(head.as_str(), ";\n");
                assert(t@ =~= prefix@ + head_code(s.ret, name@, strs(ps@)) + ";\n"@);
                Ok(t)
            },
        }
    }

    /// Writes the definition of a function.
    fn gen_impl(&self, name: &str, exported: bool) -> (r: Result<String, ZError>)
        requires
            self.wf(),
        ensures
            text_r(r) == impl_code(self@, name@, exported),
    {
        let f = match self.fns.get(name) {
            Some(f) => *f,
            None => {
                return Err(self.export_err(name));
            },
        };
        let none: Vec<String> = Vec::new();
        assert(strs(none@) =~= Seq::empty());
        proof {
            lemma_params(self@, name@);
        }
        let s = match self.infer_signature(name, f, &none, self.fns.len()) {
            Err(x) => {
                return Err(x);
            },
            Ok(s) => s,
        };
        let ps = param_list(f.params, &s.params);
        let list = join(&ps, ", ");
        let ret = s.ret;
        let prefix = if !exported {
            "static "
        } else if self.windows {
            "__declspec(dllexport) "
        } else {
            "__attribute__((visibility(\"default\"))) "
        };
        let first = cat7(prefix, ret.c_name(), " ", name, "(", list.as_str(), ")");
        let buffer = if ret == CType::Str { "    static char ka_ret_buf[2048];\n" } else { "" };
        let head = cat3(first.as_str(), " {\n", buffer);
        assert(head@ =~= linkage(self.windows, exported) + head_code(ret, name@, strs(ps@)) + " {\n"@ + buffer@);
        let vars = first_vars(f.params);
        let mut st = Gen { vars, temps: 0, out: head };
        match self.gen_stmts(f.body, &mut st, ret) {
            Err(x) => Err(x),
            Ok(()) => {
                let last = if has_return(f.body) {
                    ""
                } else {
                    match ret {
                        CType::Void => "",
                        CType::Str => "    return NULL;\n",
                        CType::Bool => "    return false;\n",
                        _ => "    return 0;\n",
                    }
                };
                Ok(cat3(st.out.as_str(), last, "}\n"))
            },
        }
    }

    /// Writes exported functions and all that they need.
    fn gen_all(&self, es: &Vec<String>) -> (r: Result<String, ZError>)
        requires
            self.wf(),
        ensures
            text_r(r) == generated(self@, strs(es@)),
    {
        let mut names = match self.find_needed(es) {
            Err(x) => {
                return Err(x);
            },
            Ok(st) => st.order,
        };
        let ghost order = strs(names@);
        let mut k: usize = 0;
        while k < es.len()
            invariant
                k <= es.len(),
                strs(names@) == with_exports(strs(es@), k as int, order),
            decreases es.len() - k,
        {
            assert(strs(es@)[k as int] == es@[k as int]@);
            let ghost was = strs(names@);
            if !is_in(&names, es[k].as_str()) {
                names.push(es[k].clone());
                assert(strs(names@) =~= was.push(es@[k as int]@));
            }
            k = k + 1;
        }
        let mut out =
            "// 由 hone build --dll 自动生成，请勿手动编辑\n#include <stdint.h>\n#include <stdbool.h>\n#include <stdio.h>\n#include <string.h>\n\n".to_owned();
        let ghost goal1 = protos(self@, strs(names@), strs(es@), 0, out@);
        let mut i: usize = 0;
        while i < names.len()
            invariant
                i <= names.len(),
                self.wf(),
                goal1 == protos(self@, strs(names@), strs(es@), 0, file_head()),
                protos(self@, strs(names@), strs(es@), i as int, out@) == goal1,
                needed(self@, strs(es@), 0, ReachV { order: Seq::empty(), seen: Seq::empty() }) matches Ok(st)
                    && strs(names@) == with_exports(strs(es@), es.len() as int, st.order),
            decreases names.len() - i,
        {
            assert(strs(names@)[i as int] == names@[i as int]@);
            let exported = is_in(es, names[i].as_str());
            match self.gen_proto(names[i].as_str(), exported) {
                Err(x) => {
                    return Err(x);
                },
                Ok(t) => {
                    out.append(t.as_str());
                },
            }
            i = i + 1;
        }
        out.append("\n");
        let ghost goal2 = impls(self@, strs(names@), strs(es@), 0, out@);
        let mut j: usize = 0;
        while j < names.len()
            invariant
                j <= names.len(),
                self.wf(),
                goal2 == generated(self@, strs(es@)),
                impls(self@, strs(names@), strs(es@), j as int, out@) == goal2,
            decreases names.len() - j,
        {
            assert(strs(names@)[j as int] == names@[j as int]@);
            let exported = is_in(es, names[j].as_str());
            match self.gen_impl(names[j].as_str(), exported) {
                Err(x) => {
                    return Err(x);
                },
                Ok(t) => {
                    out.append(t.as_str());
                    out.append("\n");
                },
            }
            j = j + 1;
        }
        Ok(out)
    }
}

/// The program to translate, mathematically.
pub open spec fn codegen_of(
    program: Seq<StmtV>,
    file: Seq<char>,
    src: Seq<char>,
    floats: Map<Seq<char>, Seq<char>>,
    windows: bool,
    count: nat,
) -> CodegenV {
    CodegenV {
        file,
        src,
        fns: stmts_cfns(program, program.len() as int, Map::empty()),
        count,
        floats,
        windows,
    }
}

/// Writes the exported functions of a program, and all that they need, in C. `floats` holds
/// the text of each floating-point literal by the digits that it was written with.
pub fn generate(
    program: &Program,
    exports: &Vec<String>,
    file: &str,
    src: &str,
    floats: &Vec<(String, String)>,
    windows: bool,
) -> (r: Result<String, ZError>)
    ensures
        text_r(r) == generated(
            codegen_of(
                program@,
                file@,
                src@,
                float_map(floats@, floats.len() as int),
                windows,
                stmts_cfns(program@, program@.len() as int, Map::empty()).dom().len(),
            ),
            strs(exports@),
        ),
{
    let mut fns: Table<CFn> = Table::new();
    assert(cfns_v(fns@) =~= Map::empty());
    collect_fns(&mut fns, &program.stmts);
    let mut fl: Table<String> = Table::new();
    assert(fl@.map_values(|s: String| s@) =~= Map::empty());
    let mut i: usize = 0;
    while i < floats.len()
        invariant
            i <= floats.len(),
            fl.wf(),
            fl@.map_values(|s: String| s@) == float_map(floats@, i as int),
        decreases floats.len() - i,
    {
        let ghost before = fl@;
        let t = floats[i].1.clone();
        fl.insert(floats[i].0.as_str(), t);
        assert(fl@.map_values(|s: String| s@) =~= before.map_values(|s: String| s@).insert(
            floats@[i as int].0@,
            floats@[i as int].1@,
        ));
        i = i + 1;
    }
    proof {
        fns.lemma_count();
        assert(cfns_v(fns@).dom() =~= fns@.dom());
    }
    let cg = Codegen { file, src, fns, floats: fl, windows };
    cg.gen_all(exports)
}

} // verus!
