//! The definitions of a program: functions and structs by name.

use vstd::prelude::*;

use crate::ast::{fields_v, params_v, stmt_v, stmts_v, Param, ParamV, Stmt, StmtV, TyName};
use crate::table::Table;
use crate::text::{cat2, chars, eq, slice};
use crate::words::{starts, starts_with};

verus! {

/// A function by its parameters and its body.
#[derive(Clone, Copy)]
pub struct FnDef<'a> {
    pub params: &'a Vec<Param>,
    pub body: &'a Vec<Stmt>,
}

/// A function, mathematically.
pub struct FnV {
    pub params: Seq<ParamV>,
    pub body: Seq<StmtV>,
}

/// The mathematical form of a function.
pub open spec fn fn_v(f: FnDef) -> FnV {
    FnV { params: params_v(f.params@), body: stmts_v(f.body@) }
}

/// The mathematical form of functions by name.
pub open spec fn fns_v(m: Map<Seq<char>, FnDef>) -> Map<Seq<char>, FnV> {
    m.map_values(|f: FnDef| fn_v(f))
}

/// The mathematical form of the fields of structs by name.
pub open spec fn structs_v(m: Map<Seq<char>, &Vec<(String, TyName)>>) -> Map<Seq<char>, Seq<(Seq<char>, TyName)>> {
    m.map_values(|f: &Vec<(String, TyName)>| fields_v(f@))
}

/// The functions with those that a statement defines: a function itself, unless it is a
/// temporary one, and all that are defined inside the statement.
pub open spec fn stmt_fns(s: StmtV, m: Map<Seq<char>, FnV>) -> Map<Seq<char>, FnV>
    decreases s, 0int,
{
    match s {
        StmtV::FnDef { name, params, body, tmp, .. } => stmts_fns(
            body,
            body.len() as int,
            if tmp {
                m
            } else {
                m.insert(name, FnV { params, body })
            },
        ),
        StmtV::Block { stmts, .. } => stmts_fns(stmts, stmts.len() as int, m),
        StmtV::If { then_branch, else_branch, .. } => {
            let m1 = stmts_fns(then_branch, then_branch.len() as int, m);
            match else_branch {
                Some(b) => stmts_fns(b, b.len() as int, m1),
                None => m1,
            }
        },
        StmtV::While { body, .. } => stmts_fns(body, body.len() as int, m),
        StmtV::ForIn { body, .. } => stmts_fns(body, body.len() as int, m),
        StmtV::Try { body, handler, .. } => stmts_fns(
            handler,
            handler.len() as int,
            stmts_fns(body, body.len() as int, m),
        ),
        _ => m,
    }
}

/// The functions with those that the first `n` statements define.
pub open spec fn stmts_fns(ss: Seq<StmtV>, n: int, m: Map<Seq<char>, FnV>) -> Map<Seq<char>, FnV>
    decreases ss, n,
{
    if n <= 0 || n > ss.len() {
        m
    } else {
        stmt_fns(ss[n - 1], stmts_fns(ss, n - 1, m))
    }
}

/// Registers a function.
pub fn put_fn<'a>(t: &mut Table<FnDef<'a>>, name: &str, f: FnDef<'a>)
    requires
        old(t).wf(),
    ensures
        final(t).wf(),
        fns_v(final(t)@) == fns_v(old(t)@).insert(name@, fn_v(f)),
{
    let ghost before = t@;
    t.insert(name, f);
    assert(fns_v(t@) =~= fns_v(before).insert(name@, fn_v(f)));
}

/// Registers the functions that statements define.
pub fn collect_fns<'a>(t: &mut Table<FnDef<'a>>, ss: &'a Vec<Stmt>)
    requires
        old(t).wf(),
    ensures
        final(t).wf(),
        fns_v(final(t)@) == stmts_fns(stmts_v(ss@), ss.len() as int, fns_v(old(t)@)),
    decreases ss,
{
    let ghost m0 = fns_v(t@);
    let mut i: usize = 0;
    while i < ss.len()
        invariant
            i <= ss.len(),
            t.wf(),
            fns_v(t@) == stmts_fns(stmts_v(ss@), i as int, m0),
        decreases ss.len() - i,
    {
        let s = &ss[i];
        let ghost was = fns_v(t@);
        assert(stmts_v(ss@)[i as int] == stmt_v(ss@[i as int]));
        assert(decreases_to!(ss@ => ss@[i as int]));
        match s {
            Stmt::FnDef { name, params, body, tmp, .. } => {
                if !*tmp {
                    put_fn(t, name.as_str(), FnDef { params, body });
                }
                collect_fns(t, body);
            },
            Stmt::Block { stmts, .. } => collect_fns(t, stmts),
            Stmt::If { then_branch, else_branch, .. } => {
                collect_fns(t, then_branch);
                if let Some(b) = else_branch {
                    collect_fns(t, b);
                }
            },
            Stmt::While { body, .. } => collect_fns(t, body),
            Stmt::ForIn { body, .. } => collect_fns(t, body),
            Stmt::Try { body, handler, .. } => {
                collect_fns(t, body);
                collect_fns(t, handler);
            },
            _ => {},
        }
        assert(fns_v(t@) == stmt_fns(stmts_v(ss@)[i as int], was));
        i = i + 1;
    }
}

/// The structs with those that a statement defines.
pub open spec fn stmt_structs(s: StmtV, m: Map<Seq<char>, Seq<(Seq<char>, TyName)>>) -> Map<
    Seq<char>,
    Seq<(Seq<char>, TyName)>,
>
    decreases s, 0int,
{
    match s {
        StmtV::StructDef { name, fields, .. } => m.insert(name, fields),
        StmtV::Block { stmts, .. } => stmts_structs(stmts, stmts.len() as int, m),
        StmtV::If { then_branch, else_branch, .. } => {
            let m1 = stmts_structs(then_branch, then_branch.len() as int, m);
            match else_branch {
                Some(b) => stmts_structs(b, b.len() as int, m1),
                None => m1,
            }
        },
        StmtV::While { body, .. } => stmts_structs(body, body.len() as int, m),
        StmtV::ForIn { body, .. } => stmts_structs(body, body.len() as int, m),
        StmtV::Try { body, handler, .. } => stmts_structs(
            handler,
            handler.len() as int,
            stmts_structs(body, body.len() as int, m),
        ),
        _ => m,
    }
}

/// The structs with those that the first `n` statements define.
pub open spec fn stmts_structs(ss: Seq<StmtV>, n: int, m: Map<Seq<char>, Seq<(Seq<char>, TyName)>>) -> Map<
    Seq<char>,
    Seq<(Seq<char>, TyName)>,
>
    decreases ss, n,
{
    if n <= 0 || n > ss.len() {
        m
    } else {
        stmt_structs(ss[n - 1], stmts_structs(ss, n - 1, m))
    }
}

/// Registers the structs that statements define.
pub fn collect_structs<'a>(t: &mut Table<&'a Vec<(String, TyName)>>, ss: &'a Vec<Stmt>)
    requires
        old(t).wf(),
    ensures
        final(t).wf(),
        structs_v(final(t)@) == stmts_structs(stmts_v(ss@), ss.len() as int, structs_v(old(t)@)),
    decreases ss,
{
    let ghost m0 = structs_v(t@);
    let mut i: usize = 0;
    while i < ss.len()
        invariant
            i <= ss.len(),
            t.wf(),
            structs_v(t@) == stmts_structs(stmts_v(ss@), i as int, m0),
        decreases ss.len() - i,
    {
        let s = &ss[i];
        let ghost was = structs_v(t@);
        assert(stmts_v(ss@)[i as int] == stmt_v(ss@[i as int]));
        assert(decreases_to!(ss@ => ss@[i as int]));
        match s {
            Stmt::StructDef { name, fields, .. } => {
                let ghost before = t@;
                t.insert(name.as_str(), fields);
                assert(structs_v(t@) =~= structs_v(before).insert(name@, fields_v(fields@)));
            },
            Stmt::Block { stmts, .. } => collect_structs(t, stmts),
            Stmt::If { then_branch, else_branch, .. } => {
                collect_structs(t, then_branch);
                if let Some(b) = else_branch {
                    collect_structs(t, b);
                }
            },
            Stmt::While { body, .. } => collect_structs(t, body),
            Stmt::ForIn { body, .. } => collect_structs(t, body),
            Stmt::Try { body, handler, .. } => {
                collect_structs(t, body);
                collect_structs(t, handler);
            },
            _ => {},
        }
        assert(structs_v(t@) == stmt_structs(stmts_v(ss@)[i as int], was));
        i = i + 1;
    }
}

/// The name of a module's function under a prefix: a name that starts with the module's own
/// prefix gets the other one.
pub open spec fn renamed(name: Seq<char>, module: Seq<char>, prefix: Seq<char>) -> Seq<char> {
    let old_prefix = module + "_"@;
    if prefix != module && starts(name, old_prefix) {
        prefix + "_"@ + name.skip(old_prefix.len() as int)
    } else {
        name
    }
}

fn rename(name: &str, module: &str, prefix: &str) -> (r: String)
    ensures
        r@ == renamed(name@, module@, prefix@),
{
    let old_prefix = cat2(module, "_");
    if !eq(prefix, module) && starts_with(name, old_prefix.as_str()) {
        let v = chars(name);
        let n: usize = v.len();
        let k: usize = chars(old_prefix.as_str()).len();
        let rest = slice(&v, k, n);
        assert(rest@ =~= name@.skip(old_prefix@.len() as int));
        let mut r = cat2(prefix, "_");
        r.append(rest.as_str());
        r
    } else {
        name.to_owned()
    }
}

/// The functions with those that a statement of a module defines, under a prefix.
pub open spec fn module_fns(s: StmtV, module: Seq<char>, prefix: Seq<char>, m: Map<Seq<char>, FnV>) -> Map<
    Seq<char>,
    FnV,
>
    decreases s, 0int,
{
    match s {
        StmtV::FnDef { name, params, body, tmp, .. } => modules_fns(
            body,
            body.len() as int,
            module,
            prefix,
            if tmp {
                m
            } else {
                m.insert(renamed(name, module, prefix), FnV { params, body })
            },
        ),
        StmtV::Block { stmts, .. } => modules_fns(stmts, stmts.len() as int, module, prefix, m),
        StmtV::If { then_branch, else_branch, .. } => {
            let m1 = modules_fns(then_branch, then_branch.len() as int, module, prefix, m);
            match else_branch {
                Some(b) => modules_fns(b, b.len() as int, module, prefix, m1),
                None => m1,
            }
        },
        StmtV::While { body, .. } => modules_fns(body, body.len() as int, module, prefix, m),
        StmtV::ForIn { body, .. } => modules_fns(body, body.len() as int, module, prefix, m),
        StmtV::Try { body, handler, .. } => modules_fns(
            handler,
            handler.len() as int,
            module,
            prefix,
            modules_fns(body, body.len() as int, module, prefix, m),
        ),
        _ => m,
    }
}

/// The functions with those that the first `n` statements of a module define.
pub open spec fn modules_fns(
    ss: Seq<StmtV>,
    n: int,
    module: Seq<char>,
    prefix: Seq<char>,
    m: Map<Seq<char>, FnV>,
) -> Map<Seq<char>, FnV>
    decreases ss, n,
{
    if n <= 0 || n > ss.len() {
        m
    } else {
        module_fns(ss[n - 1], module, prefix, modules_fns(ss, n - 1, module, prefix, m))
    }
}

/// Registers the functions that the statements of a module define, under a prefix.
pub fn collect_fns_with_prefix<'a>(t: &mut Table<FnDef<'a>>, ss: &'a Vec<Stmt>, module: &str, prefix: &str)
    requires
        old(t).wf(),
    ensures
        final(t).wf(),
        fns_v(final(t)@) == modules_fns(stmts_v(ss@), ss.len() as int, module@, prefix@, fns_v(old(t)@)),
    decreases ss,
{
    let ghost m0 = fns_v(t@);
    let mut i: usize = 0;
    while i < ss.len()
        invariant
            i <= ss.len(),
            t.wf(),
            fns_v(t@) == modules_fns(stmts_v(ss@), i as int, module@, prefix@, m0),
        decreases ss.len() - i,
    {
        let s = &ss[i];
        let ghost was = fns_v(t@);
        assert(stmts_v(ss@)[i as int] == stmt_v(ss@[i as int]));
        assert(decreases_to!(ss@ => ss@[i as int]));
        match s {
            Stmt::FnDef { name, params, body, tmp, .. } => {
                if !*tmp {
                    let n = rename(name.as_str(), module, prefix);
                    put_fn(t, n.as_str(), FnDef { params, body });
                }
                collect_fns_with_prefix(t, body, module, prefix);
            },
            Stmt::Block { stmts, .. } => collect_fns_with_prefix(t, stmts, module, prefix),
            Stmt::If { then_branch, else_branch, .. } => {
                collect_fns_with_prefix(t, then_branch, module, prefix);
                if let Some(b) = else_branch {
                    collect_fns_with_prefix(t, b, module, prefix);
                }
            },
            Stmt::While { body, .. } => collect_fns_with_prefix(t, body, module, prefix),
            Stmt::ForIn { body, .. } => collect_fns_with_prefix(t, body, module, prefix),
            Stmt::Try { body, handler, .. } => {
                collect_fns_with_prefix(t, body, module, prefix);
                collect_fns_with_prefix(t, handler, module, prefix);
            },
            _ => {},
        }
        assert(fns_v(t@) == module_fns(stmts_v(ss@)[i as int], module@, prefix@, was));
        i = i + 1;
    }
}

} // verus!
