//! Going on with what the world outside answered.

use vstd::prelude::*;

use super::defs::collect_fns_with_prefix;
use super::env::new_env;
use super::ffi::lib_result;
use super::machine::{
    adopting, answer_v, answered, fetched, fetching, fits_frame, frame_v, import_answered, import_v,
    imported, load_v, no_library, want_v, Answer, Frame, FrameV, ImportRef, Interp, InterpV,
    LoadRef, Now, Want,
};
use super::ops::prefix;
use super::steps::{name_lib, split_name};
use crate::ast::Program;
use crate::builtins::http::{http_request, net_err, plan};
use crate::builtins::world::{Place, Reply};
use crate::builtins::{finish, World};
use crate::error::codes;
use crate::lexer::Span;
use crate::parser::Parser;
use crate::pluginmod::register;
use crate::text::{cat2, cat3, cat4};

verus! {

impl<'a> Interp<'a> {
    /// Reads the text of a module.
    fn adopt(&mut self, i: ImportRef<'a>, code: &str) -> (r: Option<Want<'a>>)
        requires
            old(self).wf(),
        ensures
            final(self).wf(),
            (final(self)@, want_v(r)) == adopting(old(self)@, import_v(i), code@),
    {
        proof {
            reveal(adopting);
        }
        let file = cat2(i.name.as_str(), ".hn");
        match Parser::parse(file.as_str(), code) {
            Err(e) => {
                let msg = cat4("cannot parse imported module `", i.name.as_str(), "`: ", e.msg.as_str());
                self.runtime_err(codes::SYNTAX, msg.as_str(), i.span, Some("check the module source"))
            },
            Ok(p) => self.wait(Frame::ImportAdopt(i), Want::Adopt(p)),
        }
    }

    /// Raises the error of a library that cannot be loaded.
    fn load_err(&mut self, path: &str, e: &str, span: Span) -> (r: Option<Want<'a>>)
        requires
            old(self).wf(),
        ensures
            final(self).wf(),
            final(self)@ == no_library(old(self)@, path@, e@, span),
            r is None,
    {
        let msg = cat4("cannot load dynamic library `", path, "`: ", e);
        self.runtime_err(
            codes::DLL_LOAD,
            msg.as_str(),
            span,
            Some("check the library path and architecture"),
        )
    }

    /// Notes that a library is loaded.
    fn load_library(&mut self, lib: &str)
        requires
            old(self).wf(),
        ensures
            final(self).wf(),
            final(self)@ == (InterpV { libs: old(self)@.libs.insert(lib@), ..old(self)@ }),
    {
        let ghost before = self.libs@;
        self.libs.insert(lib, true);
        assert(self.libs@.dom() =~= before.dom().insert(lib@));
    }

    /// Takes in the definitions of a module, and runs it in scopes of its own.
    fn exec_import(&mut self, i: ImportRef<'a>, p: &'a Program) -> (r: Option<Want<'a>>)
        requires
            old(self).wf(),
        ensures
            final(self).wf(),
            (final(self)@, want_v(r)) == imported(old(self)@, import_v(i), p@),
    {
        let prefix: &str = match i.alias {
            Some(x) => x.as_str(),
            None => i.name.as_str(),
        };
        collect_fns_with_prefix(&mut self.fns, &p.stmts, i.name.as_str(), prefix);
        let mut env = new_env();
        std::mem::swap(&mut env, &mut self.env);
        self.push(Frame::Module(env));
        self.push(Frame::Stmts(&p.stmts, 0));
        None
    }

    /// Goes on with the text of a module, or raises an error.
    fn read_module(&mut self, i: ImportRef<'a>, a: Answer<'a>) -> (r: Option<Want<'a>>)
        requires
            old(self).wf(),
        ensures
            final(self).wf(),
            (final(self)@, want_v(r)) == import_answered(old(self)@, FrameV::ImportText(import_v(i)), answer_v(a)),
    {
        match a {
            Answer::World(Reply::Text(t)) => self.adopt(i, t.as_str()),
            Answer::World(Reply::Trouble(_, e)) => {
                let head = cat3("cannot read local module `", i.name.as_str(), "` at `");
                let msg = cat4(head.as_str(), i.url.as_str(), "`: ", e.as_str());
                self.runtime_err(
                    codes::NOT_FOUND,
                    msg.as_str(),
                    i.span,
                    Some("check the module path; local paths are relative to the working directory"),
                )
            },
            _ => None,
        }
    }

    /// Fetches a module.
    fn fetch(&mut self, i: ImportRef<'a>) -> (r: Option<Want<'a>>)
        requires
            old(self).wf(),
        ensures
            final(self).wf(),
            (final(self)@, want_v(r)) == fetching(old(self)@, import_v(i)),
    {
        proof {
            reveal(fetching);
        }
        let c = plan(
            &Place { file: self.file.as_str(), src: self.src.as_str(), span: i.span, windows: self.windows },
            i.url.as_str(),
            "GET",
            None,
        );
        match c {
            Ok(c) => self.wait(Frame::ImportNet(i), Want::Download(i.name.clone(), c)),
            Err(e) => self.raise(e),
        }
    }

    /// Goes on with the kept text of a module, or fetches it.
    fn look_up_module(&mut self, i: ImportRef<'a>, a: Answer<'a>) -> (r: Option<Want<'a>>)
        requires
            old(self).wf(),
        ensures
            final(self).wf(),
            (final(self)@, want_v(r)) == import_answered(old(self)@, FrameV::ImportCache(import_v(i)), answer_v(a)),
    {
        match a {
            Answer::World(Reply::MaybeText(Some(t))) => self.adopt(i, t.as_str()),
            Answer::World(Reply::MaybeText(None)) => self.fetch(i),
            Answer::World(Reply::Trouble(_, e)) => {
                let msg = cat4("cannot read cached module `", i.name.as_str(), "`: ", e.as_str());
                self.runtime_err(codes::NOT_FOUND, msg.as_str(), i.span, None)
            },
            _ => None,
        }
    }

    /// Keeps the fetched text of a module.
    fn keep_module(&mut self, i: ImportRef<'a>, a: Answer<'a>) -> (r: Option<Want<'a>>)
        requires
            old(self).wf(),
        ensures
            final(self).wf(),
            (final(self)@, want_v(r)) == fetched(old(self)@, import_v(i), answer_v(a)),
    {
        proof {
            reveal(fetched);
        }
        match a {
            Answer::World(Reply::Bytes(b)) => {
                let t = http_request(
                    &Place { file: self.file.as_str(), src: self.src.as_str(), span: i.span, windows: self.windows },
                    i.url.as_str(),
                    b.as_slice(),
                );
                match t {
                    Ok(t) => self.wait(
                        Frame::ImportSave(i, t.clone()),
                        Want::SaveModule(i.name.clone(), t),
                    ),
                    Err(e) => self.raise(e),
                }
            },
            Answer::World(Reply::NetTrouble(s, k, e)) => {
                let x = net_err(
                    &Place { file: self.file.as_str(), src: self.src.as_str(), span: i.span, windows: self.windows },
                    i.url.as_str(),
                    s,
                    k,
                    e.as_str(),
                );
                self.raise(x)
            },
            _ => None,
        }
    }

    /// Goes on with the signatures of a header file.
    fn read_header(&mut self, l: LoadRef<'a>, h: String, a: Answer<'a>) -> (r: Option<Want<'a>>)
        requires
            old(self).wf(),
        ensures
            final(self).wf(),
            (final(self)@, want_v(r)) == import_answered(
                old(self)@,
                FrameV::LoadHeader(load_v(l), h@),
                answer_v(a),
            ),
    {
        match a {
            Answer::Sigs(ss) => {
                let lib = name_lib(self.windows, l.alias, l.path.as_str());
                self.add_sigs(lib.as_str(), ss);
                self.exec_load(l)
            },
            Answer::World(Reply::Trouble(_, e)) => {
                let msg = cat4("cannot read header `", h.as_str(), "`: ", e.as_str());
                self.runtime_err(
                    codes::NOT_FOUND,
                    msg.as_str(),
                    l.span,
                    Some("check the header path, or remove the `from` clause"),
                )
            },
            _ => None,
        }
    }

    /// Goes on with an answer about a module or a header file.
    fn fetch_module(&mut self, f: Frame<'a>, a: Answer<'a>) -> (r: Option<Want<'a>>)
        requires
            old(self).wf(),
        ensures
            final(self).wf(),
            (final(self)@, want_v(r)) == import_answered(old(self)@, frame_v(f), answer_v(a)),
    {
        match f {
            Frame::ImportText(i) => self.read_module(i, a),
            Frame::ImportCache(i) => self.look_up_module(i, a),
            Frame::ImportNet(i) => self.keep_module(i, a),
            Frame::ImportSave(i, t) => match a {
                Answer::World(Reply::Done) => self.adopt(i, t.as_str()),
                Answer::World(Reply::Trouble(_, e)) => {
                    let msg = cat4("cannot cache module `", i.name.as_str(), "`: ", e.as_str());
                    self.runtime_err(codes::NOT_FOUND, msg.as_str(), i.span, None)
                },
                _ => None,
            },
            Frame::ImportAdopt(i) => match a {
                Answer::Module(p) => self.exec_import(i, p),
                _ => None,
            },
            Frame::LoadHeader(l, h) => self.read_header(l, h, a),
            _ => None,
        }
    }

    /// Goes on with an answer to what the program wanted.
    #[verifier::rlimit(40)]
    pub fn answer(&mut self, w: &mut World, a: Answer<'a>) -> (r: Option<Want<'a>>)
        requires
            old(self).wf(),
            old(w).wf(),
            old(self)@.now is Wait,
            old(self)@.frames.len() > 0,
            fits_frame(old(self)@.frames.last(), answer_v(a)),
        ensures
            final(self).wf(),
            final(w).wf(),
            (final(self)@, final(w)@, want_v(r)) == answered(old(self)@, old(w)@, answer_v(a)),
    {
        let f = match self.pop() {
            Some(f) => f,
            None => {
                return None;
            },
        };
        self.now = Now::Fall;
        match f {
            Frame::Ask(p, span) => match a {
                Answer::World(r) => {
                    let o = finish(w, &Place { file: self.file.as_str(), src: self.src.as_str(), span, windows: self.windows }, p, r);
                    self.absorb(o, span)
                },
                _ => None,
            },
            Frame::LibCall(t, f, l, span) => match a {
                Answer::World(r) => {
                    let o = lib_result(
                        &Place { file: self.file.as_str(), src: self.src.as_str(), span, windows: self.windows },
                        t,
                        f.as_str(),
                        l.as_str(),
                        r,
                    );
                    self.absorb(o, span)
                },
                _ => None,
            },
            Frame::LoadLib(l) => match a {
                Answer::World(Reply::Trouble(_, e)) => self.load_err(l.path.as_str(), e.as_str(), l.span),
                _ => {
                    let lib = name_lib(self.windows, l.alias, l.path.as_str());
                    self.load_library(lib.as_str());
                    register(&mut w.plugins, lib.as_str(), l.path.as_str());
                    None
                },
            },
            Frame::CallLoad(c, args, span, path) => match a {
                Answer::World(Reply::Trouble(_, e)) => self.load_err(path.as_str(), e.as_str(), span),
                _ => {
                    let (lib, _) = split_name(c.as_str());
                    self.load_library(lib.as_str());
                    self.invoke(c, args, span)
                },
            },
            f => self.fetch_module(f, a),
        }
    }
}

} // verus!
