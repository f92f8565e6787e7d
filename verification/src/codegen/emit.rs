//! Writing functions in C.

use vstd::prelude::*;
use vstd::utf8::{encode_scalar, encode_utf8};

use super::infer::types_of;
use super::types::{
    bad_init, binary_type, c_err, no_call, no_var, not_in_c, param_types, prefix_type, signature, stmt_place,
    stmt_span, CType, Codegen, CodegenV,
};
use crate::ast::{
    expr_span, expr_v, exprs_v, stmt_v, stmts_v, BinOp, Expr, ExprV, Stmt, StmtV, UnOp,
};
use crate::error::{codes, ErrV, ZError};
use crate::lexer::Span;
use crate::table::Table;
use crate::text::{cat2, cat3, cat4, cat5, cat7, chars, dec, dec_i64, dec_usize, has_char, idec, strs};
use crate::words::{join, joined_by};

verus! {

/// The digit of a value below eight.
pub open spec fn octal(d: nat) -> char {
    (48 + d % 8) as char
}

/// A character in a C literal. A control character is written with three octal digits, which
/// no digit behind them can be taken for a part of.
pub open spec fn c_char(c: char) -> Seq<char> {
    if c == '"' {
        "\\\""@
    } else if c == '\\' {
        "\\\\"@
    } else if c == '?' {
        "\\?"@
    } else if c == '\n' {
        "\\n"@
    } else if c == '\t' {
        "\\t"@
    } else if c == '\r' {
        "\\r"@
    } else if ' ' > c {
        seq!['\\', '0', octal(c as nat / 8), octal(c as nat % 8)]
    } else {
        seq![c]
    }
}

/// The first `n` characters of a text in a C literal.
pub open spec fn c_chars(s: Seq<char>, n: int) -> Seq<char>
    decreases n,
{
    if n <= 0 || n > s.len() {
        Seq::empty()
    } else {
        c_chars(s, n - 1) + c_char(s[n - 1])
    }
}

/// The C literal of a text.
pub open spec fn c_literal(s: Seq<char>) -> Seq<char> {
    "\""@ + c_chars(s, s.len() as int) + "\""@
}

fn octal_char(d: u8) -> (r: char)
    requires
        d < 8,
    ensures
        r == octal(d as nat),
{
    if d == 0 {
        '0'
    } else if d == 1 {
        '1'
    } else if d == 2 {
        '2'
    } else if d == 3 {
        '3'
    } else if d == 4 {
        '4'
    } else if d == 5 {
        '5'
    } else if d == 6 {
        '6'
    } else {
        '7'
    }
}

fn c_escape(c: char) -> (r: String)
    ensures
        r@ == c_char(c),
{
    if c == '"' {
        "\\\"".to_owned()
    } else if c == '\\' {
        "\\\\".to_owned()
    } else if c == '?' {
        "\\?".to_owned()
    } else if c == '\n' {
        "\\n".to_owned()
    } else if c == '\t' {
        "\\t".to_owned()
    } else if c == '\r' {
        "\\r".to_owned()
    } else if ' ' > c {
        let n: u8 = c as u8;
        let mut s = String::new();
        s.push('\\');
        s.push('0');
        s.push(octal_char(n / 8));
        s.push(octal_char(n % 8));
        assert(s@ =~= c_char(c));
        s
    } else {
        let mut s = String::new();
        s.push(c);
        assert(s@ =~= seq![c]);
        s
    }
}

/// Whether a character is an octal digit.
pub open spec fn is_octal(c: char) -> bool {
    '0' <= c <= '7'
}

/// The byte of an escape of one character in a C literal.
pub open spec fn simple_escape(c: char) -> Option<u8> {
    if c == 'n' {
        Some(10)
    } else if c == 't' {
        Some(9)
    } else if c == 'r' {
        Some(13)
    } else if c == '"' || c == '\\' || c == '?' {
        Some(c as u8)
    } else {
        None
    }
}

/// How many octal digits an escape at position `i` has: at most three.
pub open spec fn octals(t: Seq<char>, i: int) -> int {
    if i < 0 || i >= t.len() || !is_octal(t[i]) {
        0
    } else if i + 1 >= t.len() || !is_octal(t[i + 1]) {
        1
    } else if i + 2 >= t.len() || !is_octal(t[i + 2]) {
        2
    } else {
        3
    }
}

/// The number of `n` octal digits from position `i` on.
pub open spec fn octal_value(t: Seq<char>, i: int, n: int) -> int
    decreases n,
{
    if n <= 0 {
        0
    } else {
        octal_value(t, i, n - 1) * 8 + (t[i + n - 1] as int - 48)
    }
}

/// Bytes in front of others, where there are others.
pub open spec fn before(b: Seq<u8>, rest: Option<Seq<u8>>) -> Option<Seq<u8>> {
    match rest {
        Some(r) => Some(b + r),
        None => None,
    }
}

/// The bytes that a C literal denotes from position `i` on, up to the quotation mark at its
/// end: those of the escapes, and the UTF-8 bytes of all other characters.
pub open spec fn denoted(t: Seq<char>, i: int) -> Option<Seq<u8>>
    decreases t.len() - i,
{
    if i < 0 || i >= t.len() || t[i] == '\n' {
        None
    } else if t[i] == '"' {
        if i + 1 == t.len() {
            Some(Seq::empty())
        } else {
            None
        }
    } else if t[i] == '\\' {
        if i + 1 >= t.len() {
            None
        } else if simple_escape(t[i + 1]) is Some {
            before(seq![simple_escape(t[i + 1])->0], denoted(t, i + 2))
        } else {
            let n = octals(t, i + 1);
            let v = octal_value(t, i + 1, n);
            if n == 0 || v > 255 {
                None
            } else {
                before(seq![v as u8], denoted(t, i + 1 + n))
            }
        }
    } else {
        before(encode_utf8(seq![t[i]]), denoted(t, i + 1))
    }
}

/// The bytes that a C literal denotes.
pub open spec fn literal_bytes(t: Seq<char>) -> Option<Seq<u8>> {
    if t.len() > 0 && t[0] == '"' {
        denoted(t, 1)
    } else {
        None
    }
}

/// A character in front of a text gives its bytes in front of those of the text.
proof fn lemma_encoded(s: Seq<char>)
    requires
        s.len() > 0,
    ensures
        encode_utf8(s) == encode_utf8(seq![s[0]]) + encode_utf8(s.drop_first()),
{
    let one = seq![s[0]];
    assert(one.drop_first() =~= Seq::empty());
    assert(encode_utf8(one.drop_first()) =~= Seq::empty());
    assert(encode_utf8(one) =~= encode_scalar(s[0] as u32));
}

/// A character below the space encodes as its own byte.
proof fn lemma_ascii(c: char)
    requires
        (c as u32) < 128,
    ensures
        encode_utf8(seq![c]) == seq![c as u8],
{
    broadcast use vstd::utf8::is_ascii_chars_encode_utf8;

    let s = seq![c];
    assert(vstd::utf8::is_ascii_chars(s));
    assert(encode_utf8(s) =~= seq![c as u8]);
}

/// What stands in a C literal for one character denotes its bytes.
proof fn lemma_char_denoted(t: Seq<char>, i: int, c: char)
    requires
        0 <= i,
        i + c_char(c).len() <= t.len(),
        t.subrange(i, i + c_char(c).len()) == c_char(c),
    ensures
        denoted(t, i) == before(encode_utf8(seq![c]), denoted(t, i + c_char(c).len())),
{
    reveal_strlit("\\\"");
    reveal_strlit("\\\\");
    reveal_strlit("\\?");
    reveal_strlit("\\n");
    reveal_strlit("\\t");
    reveal_strlit("\\r");
    let w = c_char(c);
    assert(forall|k: int| 0 <= k < w.len() ==> t[i + k] == #[trigger] w[k]) by {
        assert forall|k: int| 0 <= k < w.len() implies t[i + k] == #[trigger] w[k] by {
            assert(t.subrange(i, i + w.len())[k] == w[k]);
        }
    }
    assert(t[i] == w[0]);
    if c == '"' || c == '\\' || c == '?' || c == '\n' || c == '\t' || c == '\r' {
        assert(t[i + 1] == w[1]);
        lemma_ascii(c);
    } else if ' ' > c {
        assert(t[i + 1] == w[1]);
        assert(t[i + 2] == w[2]);
        assert(t[i + 3] == w[3]);
        assert(octals(t, i + 1) == 3);
        reveal_with_fuel(octal_value, 4);
        let n = c as int;
        assert(octal_value(t, i + 1, 3) == n);
        lemma_ascii(c);
    }
}

/// The C literal of a text denotes the bytes of its characters from the `k`-th on.
proof fn lemma_denoted(s: Seq<char>, k: int)
    requires
        0 <= k <= s.len(),
    ensures
        denoted(c_literal(s), 1 + c_chars(s, k).len() as int) == Some(encode_utf8(s.skip(k))),
    decreases s.len() - k,
{
    reveal_strlit("\"");
    let t = c_literal(s);
    let n = s.len() as int;
    let i = 1 + c_chars(s, k).len() as int;
    if k < n {
        lemma_denoted(s, k + 1);
        lemma_prefix(s, k + 1, n);
        assert(c_chars(s, k + 1) == c_chars(s, k) + c_char(s[k]));
        assert(t.subrange(i, i + c_char(s[k]).len()) =~= c_char(s[k])) by {
            let all = c_chars(s, n);
            let m = c_chars(s, k + 1);
            assert(all.take(m.len() as int) =~= m);
            assert forall|j: int| 0 <= j < c_char(s[k]).len() implies t[i + j] == c_char(s[k])[j] by {
                assert(t[i + j] == all[c_chars(s, k).len() + j]);
                assert(all[c_chars(s, k).len() + j] == m[c_chars(s, k).len() + j]);
            }
        }
        lemma_char_denoted(t, i, s[k]);
        lemma_encoded(s.skip(k));
        assert(s.skip(k).drop_first() =~= s.skip(k + 1));
    } else {
        assert(t[i] == '"');
        assert(s.skip(k) =~= Seq::empty());
    }
}

proof fn lemma_prefix(s: Seq<char>, k: int, n: int)
    requires
        0 <= k <= n <= s.len(),
    ensures
        c_chars(s, k).len() <= c_chars(s, n).len(),
        c_chars(s, n).take(c_chars(s, k).len() as int) == c_chars(s, k),
    decreases n - k,
{
    if k < n {
        lemma_prefix(s, k, n - 1);
        assert(c_chars(s, n).take(c_chars(s, k).len() as int) =~= c_chars(s, n - 1).take(
            c_chars(s, k).len() as int,
        ));
    } else {
        assert(c_chars(s, n).take(c_chars(s, k).len() as int) =~= c_chars(s, k));
    }
}

/// The C literal of a text: it denotes the UTF-8 bytes of the text.
pub fn c_str_lit(s: &str) -> (r: String)
    ensures
        r@ == c_literal(s@),
        literal_bytes(r@) == Some(encode_utf8(s@)),
{
    let v = chars(s);
    let mut out = "\"".to_owned();
    assert(out@ =~= "\""@ + c_chars(s@, 0));
    let mut i: usize = 0;
    while i < v.len()
        invariant
            i <= v.len(),
            v@ == s@,
            out@ == "\""@ + c_chars(s@, i as int),
        decreases v.len() - i,
    {
        let e = c_escape(v[i]);
        out.append(e.as_str());
        assert(out@ =~= "\""@ + c_chars(s@, i + 1));
        i = i + 1;
    }
    out.append("\"");
    proof {
        reveal_strlit("\"");
        lemma_denoted(s@, 0);
        assert(s@.skip(0) =~= s@);
        assert(c_chars(s@, 0).len() == 0);
    }
    out
}

/// A floating-point literal in C.
pub open spec fn float_text(g: CodegenV, t: Seq<char>) -> Seq<char> {
    let s = if g.floats.dom().contains(t) {
        g.floats[t]
    } else {
        t
    };
    if s.contains('.') || s.contains('e') || s.contains('E') {
        s
    } else {
        s + ".0"@
    }
}

/// An expression in C: its type, its text, and how many buffers are in use behind it.
pub struct Code {
    pub ty: CType,
    pub code: String,
    pub temps: usize,
}

/// An expression in C, mathematically.
pub struct CodeV {
    pub ty: CType,
    pub code: Seq<char>,
    pub temps: usize,
}

/// The mathematical form of an expression in C.
pub open spec fn code_r(r: Result<Code, ZError>) -> Result<CodeV, ErrV> {
    match r {
        Ok(c) => Ok(CodeV { ty: c.ty, code: c.code@, temps: c.temps }),
        Err(e) => Err(e@),
    }
}

/// The number of the next buffer.
pub open spec fn next_temp(n: usize) -> usize {
    if n < usize::MAX {
        (n + 1) as usize
    } else {
        n
    }
}

/// The concatenation of two texts in the `n`-th buffer.
pub open spec fn concat_code(n: usize, a: Seq<char>, b: Seq<char>) -> Seq<char> {
    "({ char ka_s"@ + dec(n as nat) + "[256]; snprintf(ka_s"@ + dec(n as nat) + ", sizeof ka_s"@ + dec(n as nat)
        + ", \"%s%s\", "@ + a + ", "@ + b + "); (const char*)ka_s"@ + dec(n as nat) + "; })"@
}

/// An infix operator in C between two texts.
pub open spec fn infix_code(a: Seq<char>, op: Seq<char>, b: Seq<char>) -> Seq<char> {
    "("@ + a + " "@ + op + " "@ + b + ")"@
}

/// An infix operator in C. The operands have the types that Hone asks for.
pub open spec fn binary_code(g: CodegenV, op: BinOp, l: CodeV, r: CodeV, span: Span) -> Result<CodeV, ErrV> {
    match binary_type(g, op, l.ty, r.ty, span) {
        Err(x) => Err(x),
        Ok(ty) => if l.ty == CType::Str && op == BinOp::Add {
            Ok(CodeV { ty, code: concat_code(r.temps, l.code, r.code), temps: next_temp(r.temps) })
        } else if l.ty == CType::Str {
            Ok(
                CodeV {
                    ty,
                    code: "(strcmp("@ + l.code + ", "@ + r.code + ") "@ + op.text() + " 0)"@,
                    temps: r.temps,
                },
            )
        } else {
            Ok(CodeV { ty, code: infix_code(l.code, op.text(), r.code), temps: r.temps })
        },
    }
}

/// An expression in C, where `n` buffers are in use.
pub open spec fn expr_code(g: CodegenV, e: ExprV, vars: Map<Seq<char>, CType>, n: usize) -> Result<CodeV, ErrV>
    decreases e, 0int,
{
    match e {
        ExprV::IntLit(v, _) => Ok(CodeV { ty: CType::Int, code: idec(v as int), temps: n }),
        ExprV::FloatLit(t, _) => Ok(CodeV { ty: CType::Double, code: float_text(g, t), temps: n }),
        ExprV::BoolLit(b, _) => Ok(
            CodeV {
                ty: CType::Bool,
                code: if b {
                    "true"@
                } else {
                    "false"@
                },
                temps: n,
            },
        ),
        ExprV::StrLit(s, _) => Ok(CodeV { ty: CType::Str, code: c_literal(s), temps: n }),
        ExprV::Ident { name, span } => if vars.dom().contains(name) {
            Ok(CodeV { ty: vars[name], code: name, temps: n })
        } else {
            Err(no_var(g, name, span))
        },
        ExprV::Unary { op, expr, span } => match expr_code(g, *expr, vars, n) {
            Err(x) => Err(x),
            Ok(c) => match prefix_type(g, op, c.ty, span) {
                Err(x) => Err(x),
                Ok(t) => Ok(
                    CodeV {
                        ty: t,
                        code: (match op {
                            UnOp::Neg => "(-"@,
                            UnOp::Not => "(!"@,
                        }) + c.code + ")"@,
                        temps: c.temps,
                    },
                ),
            },
        },
        ExprV::Binary { op, lhs, rhs, span } => match expr_code(g, *lhs, vars, n) {
            Err(x) => Err(x),
            Ok(l) => match expr_code(g, *rhs, vars, l.temps) {
                Err(x) => Err(x),
                Ok(r) => binary_code(g, op, l, r, span),
            },
        },
        ExprV::Call { callee, args, span } => if !g.fns.dom().contains(callee) {
            Err(no_call(g, callee, span))
        } else {
            match signature(g, callee, g.fns[callee], Seq::empty(), g.count) {
                Err(x) => Err(x),
                Ok(s) => match call_args(g, callee, args, param_types(g.fns[callee].params), vars, n, span) {
                    Err(x) => Err(x),
                    Ok((ts, m)) => Ok(
                        CodeV { ty: s.ret, code: call_code(callee, ts), temps: m },
                    ),
                },
            }
        },
        e => Err(not_in_c(g, e)),
    }
}

/// A call in C.
pub open spec fn call_code(callee: Seq<char>, args: Seq<Seq<char>>) -> Seq<char> {
    callee + "("@ + joined_by(args, ", "@, args.len() as int) + ")"@
}

/// The error of an argument whose type is not that of its parameter.
pub open spec fn bad_arg(g: CodegenV, want: CType, got: CType, span: Span) -> ErrV {
    c_err(
        g,
        codes::TYPE_MISMATCH@,
        "argument type mismatch: expected `"@ + want.text() + "`, got `"@ + got.text() + "`"@,
        span,
        "Hone has no implicit type conversion"@,
    )
}

/// The error of a call with another number of arguments than there are parameters.
pub open spec fn bad_count(g: CodegenV, callee: Seq<char>, want: nat, got: nat, span: Span) -> ErrV {
    c_err(
        g,
        codes::ARG_COUNT@,
        "wrong number of arguments: `"@ + callee + "` expects "@ + dec(want) + ", got "@ + dec(got),
        span,
        "pass one argument for each parameter"@,
    )
}

/// The arguments of a call in C, for parameters of the given types.
pub open spec fn call_args(
    g: CodegenV,
    callee: Seq<char>,
    es: Seq<ExprV>,
    want: Seq<CType>,
    vars: Map<Seq<char>, CType>,
    n: usize,
    span: Span,
) -> Result<(Seq<Seq<char>>, usize), ErrV>
    decreases es, es.len() + 1,
{
    if es.len() != want.len() {
        Err(bad_count(g, callee, want.len(), es.len(), span))
    } else {
        args_code(g, es, 0, want, vars, n, Seq::empty())
    }
}

/// The arguments from the `i`-th on in C, behind those that are done.
pub open spec fn args_code(
    g: CodegenV,
    es: Seq<ExprV>,
    i: int,
    want: Seq<CType>,
    vars: Map<Seq<char>, CType>,
    n: usize,
    done: Seq<Seq<char>>,
) -> Result<(Seq<Seq<char>>, usize), ErrV>
    decreases es, es.len() - i,
{
    if i < 0 || i >= es.len() {
        Ok((done, n))
    } else {
        match expr_code(g, es[i], vars, n) {
            Err(x) => Err(x),
            Ok(c) => if c.ty != want[i] {
                Err(bad_arg(g, want[i], c.ty, es[i].span()))
            } else {
                args_code(g, es, i + 1, want, vars, c.temps, done.push(c.code))
            },
        }
    }
}

/// What was written of a function: its text, its variables, and how many buffers are in use.
pub struct Gen {
    pub vars: Table<CType>,
    pub temps: usize,
    pub out: String,
}

/// What was written, mathematically.
pub struct GenV {
    pub vars: Map<Seq<char>, CType>,
    pub temps: usize,
    pub out: Seq<char>,
}

impl View for Gen {
    type V = GenV;

    open spec fn view(&self) -> GenV {
        GenV { vars: self.vars@, temps: self.temps, out: self.out@ }
    }
}

impl GenV {
    /// With more text.
    pub open spec fn with(self, t: Seq<char>) -> GenV {
        GenV { out: self.out + t, ..self }
    }
}

/// A variable that gets a value.
pub open spec fn set_code(name: Seq<char>, code: Seq<char>) -> Seq<char> {
    "    "@ + name + " = "@ + code + ";\n"@
}

/// A variable that is declared with a value.
pub open spec fn decl_code(t: CType, name: Seq<char>, code: Seq<char>) -> Seq<char> {
    "    "@ + t.text() + " "@ + name + " = "@ + code + ";\n"@
}

/// The value of a variable that is given none.
pub open spec fn zero_code(t: CType) -> Seq<char> {
    match t {
        CType::Int => "0"@,
        CType::Double => "0.0"@,
        CType::Bool => "false"@,
        CType::Str | CType::Void => "NULL"@,
    }
}

/// The error of a variable that is given a value of another type.
pub open spec fn locked(g: CodegenV, name: Seq<char>, was: CType, t: CType, span: Span) -> ErrV {
    c_err(
        g,
        codes::TYPE_MISMATCH@,
        "type mismatch: variable `"@ + name + "` is locked to `"@ + was.text() + "`, got `"@ + t.text() + "`"@,
        span,
        "Hone types are locked after inference; no implicit conversion is allowed"@,
    )
}

/// The error of a condition that is no `bool`.
pub open spec fn no_cond(g: CodegenV, t: CType, span: Span, help: Seq<char>) -> ErrV {
    c_err(g, codes::COND_NOT_BOOL@, "condition must be `bool`, got `"@ + t.text() + "`"@, span, help)
}

/// The kind of a statement that cannot be translated.
pub open spec fn kind_of(s: StmtV) -> Seq<char> {
    match s {
        StmtV::ForIn { .. } => "ForIn"@,
        StmtV::Export { .. } => "Export"@,
        StmtV::Import { .. } => "Import"@,
        StmtV::Load { .. } => "Load"@,
        StmtV::Use { .. } => "Use"@,
        StmtV::Alias { .. } => "Alias"@,
        StmtV::Go { .. } => "Go"@,
        StmtV::Try { .. } => "Try"@,
        StmtV::Throw { .. } => "Throw"@,
        _ => "StructDef"@,
    }
}

/// The error of a statement that cannot be translated.
pub open spec fn no_stmt(g: CodegenV, s: StmtV) -> ErrV {
    c_err(
        g,
        codes::NOT_IMPLEMENTED@,
        "cannot translate `"@ + kind_of(s) + "` to C in v0.1.0"@,
        stmt_place(s),
        "exported functions must be pure computations"@,
    )
}

/// An assignment in C.
pub open spec fn assign_code(g: CodegenV, name: Seq<char>, c: CodeV, st: GenV, span: Span) -> Result<GenV, ErrV> {
    if st.vars.dom().contains(name) {
        if st.vars[name] != c.ty {
            Err(locked(g, name, st.vars[name], c.ty, span))
        } else {
            Ok((GenV { temps: c.temps, ..st }).with(set_code(name, c.code)))
        }
    } else {
        Ok(
            (GenV { vars: st.vars.insert(name, c.ty), temps: c.temps, ..st }).with(
                decl_code(c.ty, name, c.code),
            ),
        )
    }
}

/// A declaration with a value in C.
pub open spec fn init_code(g: CodegenV, name: Seq<char>, annot: CType, c: CodeV, st: GenV, span: Span) -> Result<
    GenV,
    ErrV,
> {
    if c.ty != annot {
        Err(bad_init(g, name, annot, c.ty, span))
    } else {
        assign_code(g, name, c, st, span)
    }
}

/// A return in C.
pub open spec fn return_code(g: CodegenV, c: CodeV, st: GenV, ret: CType, span: Span) -> Result<GenV, ErrV> {
    if c.ty != ret {
        Err(
            c_err(
                g,
                codes::TYPE_MISMATCH@,
                "return type mismatch: function returns `"@ + ret.text() + "`, got `"@ + c.ty.text() + "`"@,
                span,
                "make the return value match the function's return type"@,
            ),
        )
    } else if ret == CType::Str {
        Ok(
            (GenV { temps: c.temps, ..st }).with(
                "    { snprintf(ka_ret_buf, sizeof ka_ret_buf, \"%s\", "@ + c.code + "); return ka_ret_buf; }\n"@,
            ),
        )
    } else {
        Ok((GenV { temps: c.temps, ..st }).with("    return "@ + c.code + ";\n"@))
    }
}

/// A statement in C, behind what was written.
pub open spec fn stmt_code(g: CodegenV, s: StmtV, st: GenV, ret: CType) -> Result<GenV, ErrV>
    decreases s, 0int,
{
    match s {
        StmtV::Assign { name, value, span } => match expr_code(g, value, st.vars, st.temps) {
            Err(x) => Err(x),
            Ok(c) => assign_code(g, name, c, st, span),
        },
        StmtV::VarDecl { name, ty, init, span } => match init {
            None => assign_code(
                g,
                name,
                CodeV { ty: CType::of(ty), code: zero_code(CType::of(ty)), temps: st.temps },
                st,
                span,
            ),
            Some(e) => match expr_code(g, e, st.vars, st.temps) {
                Err(x) => Err(x),
                Ok(c) => init_code(g, name, CType::of(ty), c, st, span),
            },
        },
        StmtV::Block { stmts, .. } => match scope_code(g, stmts, st.with("    {\n"@), ret) {
            Err(x) => Err(x),
            Ok(t) => Ok(t.with("    }\n"@)),
        },
        StmtV::If { cond, then_branch, else_branch, span } => match expr_code(g, cond, st.vars, st.temps) {
            Err(x) => Err(x),
            Ok(c) => if c.ty != CType::Bool {
                Err(no_cond(g, c.ty, span, "use a comparison like `x == 1`, or a boolean variable"@))
            } else {
                match scope_code(
                    g,
                    then_branch,
                    (GenV { temps: c.temps, ..st }).with("    if ("@ + c.code + ") {\n"@),
                    ret,
                ) {
                    Err(x) => Err(x),
                    Ok(t) => match else_branch {
                        None => Ok(t.with("    }"@).with("\n"@)),
                        Some(b) => match scope_code(g, b, t.with("    }"@).with(" else {\n"@), ret) {
                            Err(x) => Err(x),
                            Ok(u) => Ok(u.with("    }"@).with("\n"@)),
                        },
                    },
                }
            },
        },
        StmtV::While { cond, body, span } => match expr_code(g, cond, st.vars, st.temps) {
            Err(x) => Err(x),
            Ok(c) => if c.ty != CType::Bool {
                Err(no_cond(g, c.ty, span, "use a comparison like `i < 10`, or a boolean variable"@))
            } else {
                match scope_code(
                    g,
                    body,
                    (GenV { temps: c.temps, ..st }).with("    while ("@ + c.code + ") {\n"@),
                    ret,
                ) {
                    Err(x) => Err(x),
                    Ok(t) => Ok(t.with("    }\n"@)),
                }
            },
        },
        StmtV::Return { value, span } => match value {
            Some(e) => match expr_code(g, e, st.vars, st.temps) {
                Err(x) => Err(x),
                Ok(c) => return_code(g, c, st, ret, span),
            },
            None => if ret != CType::Void {
                Err(
                    c_err(
                        g,
                        codes::TYPE_MISMATCH@,
                        "bare `return;` in a function returning `"@ + ret.text() + "`"@,
                        span,
                        "return a value of the declared type"@,
                    ),
                )
            } else {
                Ok(st.with("    return;\n"@))
            },
        },
        StmtV::ExprStmt { expr, span } => match expr {
            ExprV::Call { callee, args, .. } => if !g.fns.dom().contains(callee) {
                Err(no_call(g, callee, span))
            } else {
                match call_args(
                    g,
                    callee,
                    args,
                    param_types(g.fns[callee].params),
                    st.vars,
                    st.temps,
                    span,
                ) {
                    Err(x) => Err(x),
                    Ok((ts, m)) => Ok(
                        (GenV { temps: m, ..st }).with("    "@ + call_code(callee, ts) + ";\n"@),
                    ),
                }
            },
            e => Err(
                c_err(
                    g,
                    codes::NOT_IMPLEMENTED@,
                    "cannot translate this expression statement to C"@,
                    e.span(),
                    "only function calls are supported as expression statements"@,
                ),
            ),
        },
        StmtV::FnDef { .. } | StmtV::DebugPrint { .. } | StmtV::Breakpoint { .. } => Ok(st),
        s => Err(no_stmt(g, s)),
    }
}

/// The statements of a block in C: what it declares ends with it.
pub open spec fn scope_code(g: CodegenV, ss: Seq<StmtV>, st: GenV, ret: CType) -> Result<GenV, ErrV>
    decreases ss, ss.len() + 1,
{
    match stmts_code(g, ss, 0, st, ret) {
        Err(x) => Err(x),
        Ok(t) => Ok(GenV { vars: st.vars, ..t }),
    }
}

/// The statements from the `i`-th on in C, behind what was written.
pub open spec fn stmts_code(g: CodegenV, ss: Seq<StmtV>, i: int, st: GenV, ret: CType) -> Result<GenV, ErrV>
    decreases ss, ss.len() - i,
{
    if i < 0 || i >= ss.len() {
        Ok(st)
    } else {
        match stmt_code(g, ss[i], st, ret) {
            Err(x) => Err(x),
            Ok(t) => stmts_code(g, ss, i + 1, t, ret),
        }
    }
}

/// What writing arguments comes to, mathematically.
pub open spec fn args_r(r: Result<(Vec<String>, usize), ZError>) -> Result<(Seq<Seq<char>>, usize), ErrV> {
    match r {
        Ok((ts, m)) => Ok((strs(ts@), m)),
        Err(e) => Err(e@),
    }
}

/// What writing comes to, mathematically.
pub open spec fn gen_r(r: Result<(), ZError>, st: GenV) -> Result<GenV, ErrV> {
    match r {
        Ok(()) => Ok(st),
        Err(e) => Err(e@),
    }
}

impl Gen {
    fn add(&mut self, t: &str)
        requires
            old(self).vars.wf(),
        ensures
            final(self).vars.wf(),
            final(self)@ == old(self)@.with(t@),
    {
        self.out.append(t);
    }
}

impl<'a> Codegen<'a> {
    fn float_code(&self, t: &String) -> (r: String)
        requires
            self.wf(),
        ensures
            r@ == float_text(self@, t@),
    {
        let s = match self.floats.get(t.as_str()) {
            Some(x) => x.clone(),
            None => t.clone(),
        };
        if has_char(s.as_str(), '.') || has_char(s.as_str(), 'e') || has_char(s.as_str(), 'E') {
            s
        } else {
            cat2(s.as_str(), ".0")
        }
    }

    fn gen_binary(&self, op: BinOp, l: Code, r: Code, span: Span) -> (c: Result<Code, ZError>)
        ensures
            code_r(c) == binary_code(
                self@,
                op,
                CodeV { ty: l.ty, code: l.code@, temps: l.temps },
                CodeV { ty: r.ty, code: r.code@, temps: r.temps },
                span,
            ),
    {
        let ty = match self.infer_binary(op, l.ty, r.ty, span) {
            Err(x) => {
                return Err(x);
            },
            Ok(t) => t,
        };
        let plus = match op {
            BinOp::Add => true,
            _ => false,
        };
        if l.ty == CType::Str && plus {
            let n = dec_usize(r.temps);
            let a = cat7(
                "({ char ka_s",
                n.as_str(),
                "[256]; snprintf(ka_s",
                n.as_str(),
                ", sizeof ka_s",
                n.as_str(),
                ", \"%s%s\", ",
            );
            let b = cat7(
                l.code.as_str(),
                ", ",
                r.code.as_str(),
                "); (const char*)ka_s",
                n.as_str(),
                "; })",
                "",
            );
            let code = cat2(a.as_str(), b.as_str());
            proof {
                reveal_strlit("");
            }
            assert(code@ =~= concat_code(r.temps, l.code@, r.code@));
            let temps: usize = if r.temps < usize::MAX { r.temps + 1 } else { r.temps };
            Ok(Code { ty, code, temps })
        } else if l.ty == CType::Str {
            let code = cat7("(strcmp(", l.code.as_str(), ", ", r.code.as_str(), ") ", op.symbol(), " 0)");
            Ok(Code { ty, code, temps: r.temps })
        } else {
            let code = cat7("(", l.code.as_str(), " ", op.symbol(), " ", r.code.as_str(), ")");
            Ok(Code { ty, code, temps: r.temps })
        }
    }

    /// Writes an expression in C.
    pub fn gen_expr(&self, e: &'a Expr, vars: &Table<CType>, n: usize) -> (r: Result<Code, ZError>)
        requires
            self.wf(),
            vars.wf(),
        ensures
            code_r(r) == expr_code(self@, expr_v(*e), vars@, n),
        decreases e, 0int,
    {
        match e {
            Expr::IntLit(v, _) => Ok(Code { ty: CType::Int, code: dec_i64(*v), temps: n }),
            Expr::FloatLit(t, _) => Ok(Code { ty: CType::Double, code: self.float_code(t), temps: n }),
            Expr::BoolLit(b, _) => {
                let code = if *b {
                    "true".to_owned()
                } else {
                    "false".to_owned()
                };
                Ok(Code { ty: CType::Bool, code, temps: n })
            },
            Expr::StrLit(s, _) => Ok(Code { ty: CType::Str, code: c_str_lit(s.as_str()), temps: n }),
            Expr::Ident { name, span } => match vars.get(name.as_str()) {
                Some(t) => Ok(Code { ty: *t, code: name.clone(), temps: n }),
                None => Err(self.var_err(name.as_str(), *span)),
            },
            Expr::Unary { op, expr, span } => match self.gen_expr(expr, vars, n) {
                Err(x) => Err(x),
                Ok(c) => match self.infer_prefix(*op, c.ty, *span) {
                    Err(x) => Err(x),
                    Ok(t) => {
                        let head = match op {
                            UnOp::Neg => "(-",
                            UnOp::Not => "(!",
                        };
                        let code = cat3(head, c.code.as_str(), ")");
                        Ok(Code { ty: t, code, temps: c.temps })
                    },
                },
            },
            Expr::Binary { op, lhs, rhs, span } => match self.gen_expr(lhs, vars, n) {
                Err(x) => Err(x),
                Ok(l) => match self.gen_expr(rhs, vars, l.temps) {
                    Err(x) => Err(x),
                    Ok(r) => self.gen_binary(*op, l, r, *span),
                },
            },
            Expr::Call { callee, args, span } => {
                let f = match self.fns.get(callee.as_str()) {
                    Some(f) => *f,
                    None => {
                        return Err(self.call_err(callee.as_str(), *span));
                    },
                };
                let none: Vec<String> = Vec::new();
                assert(strs(none@) =~= Seq::empty());
                let s = match self.infer_signature(callee.as_str(), f, &none, self.fns.len()) {
                    Ok(s) => s,
                    Err(x) => {
                        return Err(x);
                    },
                };
                let want = types_of(f.params);
                match self.gen_args(callee.as_str(), args, &want, vars, n, *span) {
                    Err(x) => Err(x),
                    Ok((ts, m)) => {
                        let list = join(&ts, ", ");
                        let code = cat4(callee.as_str(), "(", list.as_str(), ")");
                        Ok(Code { ty: s.ret, code, temps: m })
                    },
                }
            },
            e => Err(self.mode_err(e)),
        }
    }

    fn arg_err(&self, want: CType, got: CType, span: Span) -> (r: ZError)
        ensures
            r@ == bad_arg(self@, want, got, span),
    {
        let msg = cat5("argument type mismatch: expected `", want.c_name(), "`, got `", got.c_name(), "`");
        self.zerr(codes::TYPE_MISMATCH, msg.as_str(), span, "Hone has no implicit type conversion")
    }

    fn count_err(&self, callee: &str, want: usize, got: usize, span: Span) -> (r: ZError)
        ensures
            r@ == bad_count(self@, callee@, want as nat, got as nat, span),
    {
        let a = dec_usize(want);
        let b = dec_usize(got);
        let head = cat5("wrong number of arguments: `", callee, "` expects ", a.as_str(), ", got ");
        let msg = cat2(head.as_str(), b.as_str());
        self.zerr(codes::ARG_COUNT, msg.as_str(), span, "pass one argument for each parameter")
    }

    /// Writes the arguments of a call in C.
    fn gen_args(
        &self,
        callee: &str,
        es: &'a Vec<Expr>,
        want: &Vec<CType>,
        vars: &Table<CType>,
        n: usize,
        span: Span,
    ) -> (r: Result<(Vec<String>, usize), ZError>)
        requires
            self.wf(),
            vars.wf(),
        ensures
            args_r(r) == call_args(self@, callee@, exprs_v(es@), want@, vars@, n, span),
        decreases es, 0int,
    {
        if es.len() != want.len() {
            return Err(self.count_err(callee, want.len(), es.len(), span));
        }
        let mut out: Vec<String> = Vec::new();
        assert(strs(out@) =~= Seq::empty());
        let ghost goal = args_code(self@, exprs_v(es@), 0, want@, vars@, n, Seq::empty());
        let mut m: usize = n;
        let mut i: usize = 0;
        while i < es.len()
            invariant
                i <= es.len(),
                es.len() == want.len(),
                self.wf(),
                vars.wf(),
                goal == call_args(self@, callee@, exprs_v(es@), want@, vars@, n, span),
                args_code(self@, exprs_v(es@), i as int, want@, vars@, m, strs(out@)) == goal,
            decreases es.len() - i,
        {
            assert(exprs_v(es@)[i as int] == expr_v(es@[i as int]));
            assert(decreases_to!(es@ => es@[i as int]));
            match self.gen_expr(&es[i], vars, m) {
                Err(x) => {
                    return Err(x);
                },
                Ok(c) => {
                    if c.ty != want[i] {
                        return Err(self.arg_err(want[i], c.ty, expr_span(&es[i])));
                    }
                    let ghost was = strs(out@);
                    m = c.temps;
                    out.push(c.code);
                    assert(strs(out@) =~= was.push(c.code@));
                },
            }
            i = i + 1;
        }
        Ok((out, m))
    }

    fn cond_err(&self, t: CType, span: Span, help: &str) -> (r: ZError)
        ensures
            r@ == no_cond(self@, t, span, help@),
    {
        let msg = cat3("condition must be `bool`, got `", t.c_name(), "`");
        self.zerr(codes::COND_NOT_BOOL, msg.as_str(), span, help)
    }

    fn stmt_err(&self, s: &Stmt) -> (r: ZError)
        ensures
            r@ == no_stmt(self@, stmt_v(*s)),
    {
        let kind = match s {
            Stmt::ForIn { .. } => "ForIn",
            Stmt::Export { .. } => "Export",
            Stmt::Import { .. } => "Import",
            Stmt::Load { .. } => "Load",
            Stmt::Use { .. } => "Use",
            Stmt::Alias { .. } => "Alias",
            Stmt::Go { .. } => "Go",
            Stmt::Try { .. } => "Try",
            Stmt::Throw { .. } => "Throw",
            _ => "StructDef",
        };
        let msg = cat3("cannot translate `", kind, "` to C in v0.1.0");
        self.zerr(
            codes::NOT_IMPLEMENTED,
            msg.as_str(),
            stmt_span(s),
            "exported functions must be pure computations",
        )
    }

    fn gen_assign(&self, name: &str, c: Code, st: &mut Gen, span: Span) -> (r: Result<(), ZError>)
        requires
            old(st).vars.wf(),
        ensures
            final(st).vars.wf(),
            gen_r(r, final(st)@) == assign_code(
                self@,
                name@,
                CodeV { ty: c.ty, code: c.code@, temps: c.temps },
                old(st)@,
                span,
            ),
    {
        let was = match st.vars.get(name) {
            Some(t) => Some(*t),
            None => None,
        };
        match was {
            Some(t) => if t != c.ty {
                let msg = cat7(
                    "type mismatch: variable `",
                    name,
                    "` is locked to `",
                    t.c_name(),
                    "`, got `",
                    c.ty.c_name(),
                    "`",
                );
                Err(
                    self.zerr(
                        codes::TYPE_MISMATCH,
                        msg.as_str(),
                        span,
                        "Hone types are locked after inference; no implicit conversion is allowed",
                    ),
                )
            } else {
                let t = cat5("    ", name, " = ", c.code.as_str(), ";\n");
                st.temps = c.temps;
                st.add(t.as_str());
                Ok(())
            },
            None => {
                let t = cat7("    ", c.ty.c_name(), " ", name, " = ", c.code.as_str(), ";\n");
                st.vars.insert(name, c.ty);
                st.temps = c.temps;
                st.add(t.as_str());
                Ok(())
            },
        }
    }

    fn gen_init(&self, name: &str, annot: CType, c: Code, st: &mut Gen, span: Span) -> (r: Result<(), ZError>)
        requires
            old(st).vars.wf(),
        ensures
            final(st).vars.wf(),
            gen_r(r, final(st)@) == init_code(
                self@,
                name@,
                annot,
                CodeV { ty: c.ty, code: c.code@, temps: c.temps },
                old(st)@,
                span,
            ),
    {
        if c.ty != annot {
            return Err(self.init_err(name, annot, c.ty, span));
        }
        self.gen_assign(name, c, st, span)
    }

    fn gen_return(&self, c: Code, st: &mut Gen, ret: CType, span: Span) -> (r: Result<(), ZError>)
        requires
            old(st).vars.wf(),
        ensures
            final(st).vars.wf(),
            gen_r(r, final(st)@) == return_code(
                self@,
                CodeV { ty: c.ty, code: c.code@, temps: c.temps },
                old(st)@,
                ret,
                span,
            ),
    {
        if c.ty != ret {
            let msg = cat5(
                "return type mismatch: function returns `",
                ret.c_name(),
                "`, got `",
                c.ty.c_name(),
                "`",
            );
            return Err(
                self.zerr(
                    codes::TYPE_MISMATCH,
                    msg.as_str(),
                    span,
                    "make the return value match the function's return type",
                ),
            );
        }
        st.temps = c.temps;
        if ret == CType::Str {
            let t = cat3(
                "    { snprintf(ka_ret_buf, sizeof ka_ret_buf, \"%s\", ",
                c.code.as_str(),
                "); return ka_ret_buf; }\n",
            );
            st.add(t.as_str());
        } else {
            let t = cat3("    return ", c.code.as_str(), ";\n");
            st.add(t.as_str());
        }
        Ok(())
    }

    /// Writes a statement in C.
    #[verifier::rlimit(40)]
    pub fn gen_stmt(&self, s: &'a Stmt, st: &mut Gen, ret: CType) -> (r: Result<(), ZError>)
        requires
            self.wf(),
            old(st).vars.wf(),
        ensures
            final(st).vars.wf(),
            gen_r(r, final(st)@) == stmt_code(self@, stmt_v(*s), old(st)@, ret),
        decreases s, 0int,
    {
        match s {
            Stmt::Assign { name, value, span } => match self.gen_expr(value, &st.vars, st.temps) {
                Err(x) => Err(x),
                Ok(c) => self.gen_assign(name.as_str(), c, st, *span),
            },
            Stmt::VarDecl { name, ty, init, span } => {
                let annot = CType::from_annot(*ty);
                match init {
                    None => {
                        let d = match annot {
                            CType::Int => "0",
                            CType::Double => "0.0",
                            CType::Bool => "false",
                            CType::Str | CType::Void => "NULL",
                        };
                        let c = Code { ty: annot, code: d.to_owned(), temps: st.temps };
                        self.gen_assign(name.as_str(), c, st, *span)
                    },
                    Some(e) => match self.gen_expr(e, &st.vars, st.temps) {
                        Err(x) => Err(x),
                        Ok(c) => self.gen_init(name.as_str(), annot, c, st, *span),
                    },
                }
            },
            Stmt::Block { stmts, .. } => {
                st.add("    {\n");
                match self.gen_block(stmts, st, ret) {
                    Err(x) => Err(x),
                    Ok(()) => {
                        st.add("    }\n");
                        Ok(())
                    },
                }
            },
            Stmt::If { cond, then_branch, else_branch, span } => match self.gen_expr(cond, &st.vars, st.temps) {
                Err(x) => Err(x),
                Ok(c) => {
                    if c.ty != CType::Bool {
                        return Err(
                            self.cond_err(c.ty, *span, "use a comparison like `x == 1`, or a boolean variable"),
                        );
                    }
                    let t = cat3("    if (", c.code.as_str(), ") {\n");
                    st.temps = c.temps;
                    st.add(t.as_str());
                    match self.gen_block(then_branch, st, ret) {
                        Err(x) => {
                            return Err(x);
                        },
                        Ok(()) => {},
                    }
                    st.add("    }");
                    if let Some(b) = else_branch {
                        st.add(" else {\n");
                        match self.gen_block(b, st, ret) {
                            Err(x) => {
                                return Err(x);
                            },
                            Ok(()) => {},
                        }
                        st.add("    }");
                    }
                    st.add("\n");
                    Ok(())
                },
            },
            Stmt::While { cond, body, span } => match self.gen_expr(cond, &st.vars, st.temps) {
                Err(x) => Err(x),
                Ok(c) => {
                    if c.ty != CType::Bool {
                        return Err(
                            self.cond_err(c.ty, *span, "use a comparison like `i < 10`, or a boolean variable"),
                        );
                    }
                    let t = cat3("    while (", c.code.as_str(), ") {\n");
                    st.temps = c.temps;
                    st.add(t.as_str());
                    match self.gen_block(body, st, ret) {
                        Err(x) => Err(x),
                        Ok(()) => {
                            st.add("    }\n");
                            Ok(())
                        },
                    }
                },
            },
            Stmt::Return { value, span } => match value {
                Some(e) => match self.gen_expr(e, &st.vars, st.temps) {
                    Err(x) => Err(x),
                    Ok(c) => self.gen_return(c, st, ret, *span),
                },
                None => if ret != CType::Void {
                    let msg = cat3("bare `return;` in a function returning `", ret.c_name(), "`");
                    Err(
                        self.zerr(
                            codes::TYPE_MISMATCH,
                            msg.as_str(),
                            *span,
                            "return a value of the declared type",
                        ),
                    )
                } else {
                    st.add("    return;\n");
                    Ok(())
                },
            },
            Stmt::ExprStmt { expr, span } => match expr {
                Expr::Call { callee, args, .. } => {
                    let f = match self.fns.get(callee.as_str()) {
                        Some(f) => *f,
                        None => {
                            return Err(self.call_err(callee.as_str(), *span));
                        },
                    };
                    let want = types_of(f.params);
                    match self.gen_args(callee.as_str(), args, &want, &st.vars, st.temps, *span) {
                        Err(x) => Err(x),
                        Ok((ts, m)) => {
                            let list = join(&ts, ", ");
                            let call = cat4(callee.as_str(), "(", list.as_str(), ")");
                            let t = cat3("    ", call.as_str(), ";\n");
                            st.temps = m;
                            st.add(t.as_str());
                            Ok(())
                        },
                    }
                },
                e => Err(
                    self.zerr(
                        codes::NOT_IMPLEMENTED,
                        "cannot translate this expression statement to C",
                        expr_span(e),
                        "only function calls are supported as expression statements",
                    ),
                ),
            },
            Stmt::FnDef { .. } | Stmt::DebugPrint { .. } | Stmt::Breakpoint { .. } => Ok(()),
            s => Err(self.stmt_err(s)),
        }
    }

    /// Writes the statements of a block in C.
    fn gen_block(&self, ss: &'a Vec<Stmt>, st: &mut Gen, ret: CType) -> (r: Result<(), ZError>)
        requires
            self.wf(),
            old(st).vars.wf(),
        ensures
            final(st).vars.wf(),
            gen_r(r, final(st)@) == scope_code(self@, stmts_v(ss@), old(st)@, ret),
        decreases ss, 1int,
    {
        let outer = st.vars.copy();
        match self.gen_stmts(ss, st, ret) {
            Err(x) => Err(x),
            Ok(()) => {
                st.vars = outer;
                Ok(())
            },
        }
    }

    /// Writes statements in C.
    pub fn gen_stmts(&self, ss: &'a Vec<Stmt>, st: &mut Gen, ret: CType) -> (r: Result<(), ZError>)
        requires
            self.wf(),
            old(st).vars.wf(),
        ensures
            final(st).vars.wf(),
            gen_r(r, final(st)@) == stmts_code(self@, stmts_v(ss@), 0, old(st)@, ret),
        decreases ss, 0int,
    {
        let ghost goal = stmts_code(self@, stmts_v(ss@), 0, st@, ret);
        let mut i: usize = 0;
        while i < ss.len()
            invariant
                i <= ss.len(),
                self.wf(),
                st.vars.wf(),
                goal == stmts_code(self@, stmts_v(ss@), 0, old(st)@, ret),
                stmts_code(self@, stmts_v(ss@), i as int, st@, ret) == goal,
            decreases ss.len() - i,
        {
            assert(stmts_v(ss@)[i as int] == stmt_v(ss@[i as int]));
            assert(decreases_to!(ss@ => ss@[i as int]));
            match self.gen_stmt(&ss[i], st, ret) {
                Err(x) => {
                    return Err(x);
                },
                Ok(()) => {},
            }
            i = i + 1;
        }
        Ok(())
    }
}

} // verus!
