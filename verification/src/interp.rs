//! Running programs: a program is a machine that takes one step after another, and says
//! when it needs something of the world outside.

pub mod answers;
pub mod compare;
pub mod conduct;
pub mod defs;
pub mod env;
pub mod ffi;
pub mod laws;
pub mod machine;
pub mod ops;
pub mod passed;
pub mod sense;
pub mod steps;

use vstd::prelude::*;

use self::defs::{collect_fns, collect_structs, fns_v, structs_v, FnDef};
use self::env::new_env;
use self::machine::{
    frames_v, give_to, ran, sig_map, started, stepped, text_map, want_v, Frame, FrameV, Interp, Now,
    Want,
};
use crate::ast::{stmts_v, Program, TyName};
use crate::builtins::World;
use crate::table::Table;

verus! {

impl<'a> Interp<'a> {
    /// Takes one step. What the program wants of the world outside, if anything, is handed
    /// out; a program that waits or is over stays as it is.
    pub fn step(&mut self, w: &mut World) -> (r: Option<Want<'a>>)
        requires
            old(self).wf(),
            old(w).wf(),
        ensures
            final(self).wf(),
            final(w).wf(),
            (final(self)@, final(w)@, want_v(r)) == stepped(old(self)@, old(w)@),
    {
        let mut now: Now<'a> = Now::Fall;
        std::mem::swap(&mut now, &mut self.now);
        match now {
            Now::Eval(e) => self.eval_expr(e),
            Now::Exec(s) => self.exec_stmt(s),
            Now::Call(c, a, span) => self.call_fn(w, c, a, span),
            Now::Give(v) => match self.pop() {
                None => {
                    self.now = Now::Over(None);
                    None
                },
                Some(f) => self.give_to(f, v),
            },
            Now::Fall => self.fall_out(),
            Now::Ret(v) => self.return_out(v),
            Now::Raise(e) => self.raise_out(e),
            Now::Wait => {
                self.now = Now::Wait;
                None
            },
            Now::Over(e) => {
                self.now = Now::Over(e);
                None
            },
        }
    }
}

/// A program that is about to start.
pub fn start<'a>(program: &'a Program, file: &str, src: &str, debug: bool, windows: bool) -> (r: Interp<'a>)
    ensures
        r.wf(),
        r@ == started(program@, file@, src@, debug, windows),
{
    let mut fns: Table<FnDef<'a>> = Table::new();
    assert(fns_v(fns@) =~= Map::empty());
    collect_fns(&mut fns, &program.stmts);
    let mut structs: Table<&'a Vec<(String, TyName)>> = Table::new();
    assert(structs_v(structs@) =~= Map::empty());
    collect_structs(&mut structs, &program.stmts);
    let mut frames: Vec<Frame<'a>> = Vec::new();
    frames.push(Frame::Stmts(&program.stmts, 0));
    let r = Interp {
        file: file.to_owned(),
        src: src.to_owned(),
        debug,
        windows,
        depth: 0,
        fns,
        structs,
        sigs: Table::new(),
        lazy_libs: Table::new(),
        aliases: Table::new(),
        libs: Table::new(),
        env: new_env(),
        frames,
        now: Now::Fall,
    };
    assert(sig_map(r.sigs@) =~= Map::empty());
    assert(text_map(r.lazy_libs@) =~= Map::empty());
    assert(text_map(r.aliases@) =~= Map::empty());
    assert(r.libs@.dom() =~= Set::empty());
    assert(frames_v(r.frames@) =~= seq![FrameV::Stmts(stmts_v(program.stmts@), 0)]);
    r
}

/// Takes steps until the program wants something, is over, or has taken as many as it may.
pub fn run<'a>(ip: &mut Interp<'a>, w: &mut World, steps: u64) -> (r: Option<Want<'a>>)
    requires
        old(ip).wf(),
        old(w).wf(),
    ensures
        final(ip).wf(),
        final(w).wf(),
        (final(ip)@, final(w)@, want_v(r)) == ran(old(ip)@, old(w)@, steps as nat),
{
    let ghost goal = ran(ip@, w@, steps as nat);
    let mut n: u64 = steps;
    while n > 0
        invariant
            ip.wf(),
            w.wf(),
            goal == ran(old(ip)@, old(w)@, steps as nat),
            goal == ran(ip@, w@, n as nat),
        decreases n,
    {
        if let Now::Over(_) = ip.now {
            return None;
        }
        if let Now::Wait = ip.now {
            return None;
        }
        let r = ip.step(w);
        if r.is_some() {
            return r;
        }
        n = n - 1;
    }
    None
}

} // verus!
