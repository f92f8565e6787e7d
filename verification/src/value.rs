//! Run-time values.

use vstd::prelude::*;

use crate::error::{ErrV, ZError};
use crate::text::{cat3, dec_i64, eq, idec};

verus! {

/// The sign bit of a floating-point number.
pub const SIGN: u64 = 0x8000_0000_0000_0000;

/// The magnitude of an infinity; larger magnitudes are no numbers.
pub const INFINITE: u64 = 0x7ff0_0000_0000_0000;

/// The magnitude of a floating-point number given by its bits.
pub open spec fn magnitude(bits: u64) -> u64 {
    if bits >= SIGN {
        (bits - SIGN) as u64
    } else {
        bits
    }
}

/// Whether the bits are those of no number.
pub open spec fn is_nan(bits: u64) -> bool {
    magnitude(bits) > INFINITE
}

/// Where a number stands among all floating-point numbers: both zeros stand at zero.
pub open spec fn rank(bits: u64) -> int {
    if bits >= SIGN {
        -(magnitude(bits) as int)
    } else {
        magnitude(bits) as int
    }
}

/// Whether two floating-point numbers are equal; what is no number equals nothing.
pub open spec fn float_eq(a: u64, b: u64) -> bool {
    !is_nan(a) && !is_nan(b) && rank(a) == rank(b)
}

/// The bits of the number with the other sign.
pub open spec fn float_neg(bits: u64) -> u64 {
    if bits >= SIGN {
        (bits - SIGN) as u64
    } else {
        (bits + SIGN) as u64
    }
}

/// The magnitude of a floating-point number given by its bits.
pub fn float_abs(bits: u64) -> (r: u64)
    ensures
        r == magnitude(bits),
{
    if bits >= SIGN {
        bits - SIGN
    } else {
        bits
    }
}

/// Whether the bits are those of no number.
pub fn nan(bits: u64) -> (r: bool)
    ensures
        r == is_nan(bits),
{
    float_abs(bits) > INFINITE
}

/// Whether two floating-point numbers are equal.
pub fn floats_equal(a: u64, b: u64) -> (r: bool)
    ensures
        r == float_eq(a, b),
{
    let (x, y): (u64, u64) = (float_abs(a), float_abs(b));
    !nan(a) && !nan(b) && x == y && (x == 0 || (a >= SIGN) == (b >= SIGN))
}

/// Whether one floating-point number stands before another.
pub fn float_before(a: u64, b: u64) -> (r: bool)
    ensures
        r == (rank(a) < rank(b)),
{
    let (x, y): (u64, u64) = (float_abs(a), float_abs(b));
    if a >= SIGN {
        if b >= SIGN {
            y < x
        } else {
            x > 0 || y > 0
        }
    } else if b >= SIGN {
        false
    } else {
        x < y
    }
}

/// The bits of the number with the other sign.
pub fn negated(bits: u64) -> (r: u64)
    ensures
        r == float_neg(bits),
{
    if bits >= SIGN {
        bits - SIGN
    } else {
        bits + SIGN
    }
}

/// A caught error as a value.
pub struct ErrorObj {
    pub code: &'static str,
    pub message: String,
    pub file: String,
    pub line: usize,
    pub col: usize,
    pub context: String,
}

/// A caught error, mathematically.
pub struct ErrorObjV {
    pub code: Seq<char>,
    pub message: Seq<char>,
    pub file: Seq<char>,
    pub line: nat,
    pub col: nat,
    pub context: Seq<char>,
}

impl View for ErrorObj {
    type V = ErrorObjV;

    open spec fn view(&self) -> ErrorObjV {
        ErrorObjV {
            code: self.code@,
            message: self.message@,
            file: self.file@,
            line: self.line as nat,
            col: self.col as nat,
            context: self.context@,
        }
    }
}

/// What is kept of an error when it is caught.
pub open spec fn caught(e: ErrV) -> ErrorObjV {
    ErrorObjV {
        code: e.code,
        message: e.msg,
        file: e.file,
        line: e.line,
        col: e.col,
        context: e.line_text,
    }
}

impl ErrorObj {
    /// What is kept of an error when it is caught.
    pub fn from_err(e: &ZError) -> (r: ErrorObj)
        ensures
            r@ == caught(e@),
    {
        ErrorObj {
            code: e.code,
            message: e.msg.clone(),
            file: e.file.clone(),
            line: e.line,
            col: e.col,
            context: e.line_text.clone(),
        }
    }

    /// A copy.
    pub fn dup(&self) -> (r: ErrorObj)
        ensures
            r@ == self@,
    {
        ErrorObj {
            code: self.code,
            message: self.message.clone(),
            file: self.file.clone(),
            line: self.line,
            col: self.col,
            context: self.context.clone(),
        }
    }

    /// Whether two caught errors are the same.
    pub fn same(&self, o: &ErrorObj) -> (r: bool)
        ensures
            r == (self@ == o@),
    {
        eq(self.code, o.code) && eq(self.message.as_str(), o.message.as_str()) && eq(
            self.file.as_str(),
            o.file.as_str(),
        ) && self.line == o.line && self.col == o.col && eq(
            self.context.as_str(),
            o.context.as_str(),
        )
    }
}

/// A value.
pub enum Value {
    Int(i64),
    /// A floating-point number, by its IEEE 754 bits.
    Float(u64),
    Bool(bool),
    Str(String),
    List(Vec<Value>),
    /// A dictionary, in the order in which its entries came.
    Dict(Vec<(String, Value)>),
    /// What a call without a result gives.
    Null,
    /// A caught error.
    Error(ErrorObj),
    /// An address.
    Ptr(usize),
}

/// A value, mathematically.
pub enum ValueV {
    Int(i64),
    Float(u64),
    Bool(bool),
    Str(Seq<char>),
    List(Seq<ValueV>),
    Dict(Seq<(Seq<char>, ValueV)>),
    Null,
    Error(ErrorObjV),
    Ptr(usize),
}

/// The mathematical form of a value.
pub open spec fn value_v(v: Value) -> ValueV
    decreases v,
{
    match v {
        Value::Int(n) => ValueV::Int(n),
        Value::Float(b) => ValueV::Float(b),
        Value::Bool(b) => ValueV::Bool(b),
        Value::Str(s) => ValueV::Str(s@),
        Value::List(vs) => ValueV::List(values_v(vs@)),
        Value::Dict(es) => ValueV::Dict(dict_v(es@)),
        Value::Null => ValueV::Null,
        Value::Error(e) => ValueV::Error(e@),
        Value::Ptr(p) => ValueV::Ptr(p),
    }
}

/// The mathematical form of a list of values.
pub open spec fn values_v(vs: Seq<Value>) -> Seq<ValueV>
    decreases vs,
{
    Seq::new(
        vs.len(),
        |i: int|
            if 0 <= i < vs.len() {
                value_v(vs[i])
            } else {
                arbitrary()
            },
    )
}

/// The mathematical form of the entries of a dictionary.
pub open spec fn dict_v(es: Seq<(String, Value)>) -> Seq<(Seq<char>, ValueV)>
    decreases es,
{
    Seq::new(
        es.len(),
        |i: int|
            if 0 <= i < es.len() {
                (es[i].0@, value_v(es[i].1))
            } else {
                arbitrary()
            },
    )
}

impl View for Value {
    type V = ValueV;

    open spec fn view(&self) -> ValueV {
        value_v(*self)
    }
}

impl ValueV {
    /// The name of the type of the value.
    pub open spec fn type_text(self) -> Seq<char> {
        match self {
            ValueV::Int(_) => "int"@,
            ValueV::Float(_) => "float"@,
            ValueV::Bool(_) => "bool"@,
            ValueV::Str(_) => "str"@,
            ValueV::List(_) => "list"@,
            ValueV::Dict(_) => "dict"@,
            ValueV::Null => "null"@,
            ValueV::Error(_) => "error"@,
            ValueV::Ptr(_) => "ptr"@,
        }
    }
}

/// Whether two values are the same: floating-point numbers by their value, lists item
/// by item, dictionaries entry by entry in order. Values of different types never are.
pub open spec fn same_value(a: ValueV, b: ValueV) -> bool
    decreases a,
{
    match (a, b) {
        (ValueV::Int(x), ValueV::Int(y)) => x == y,
        (ValueV::Float(x), ValueV::Float(y)) => float_eq(x, y),
        (ValueV::Bool(x), ValueV::Bool(y)) => x == y,
        (ValueV::Str(x), ValueV::Str(y)) => x == y,
        (ValueV::List(x), ValueV::List(y)) => x.len() == y.len() && forall|i: int|
            0 <= i < x.len() ==> same_value(#[trigger] x[i], y[i]),
        (ValueV::Dict(x), ValueV::Dict(y)) => x.len() == y.len() && forall|i: int|
            0 <= i < x.len() ==> (#[trigger] x[i]).0 == y[i].0 && same_value(x[i].1, y[i].1),
        (ValueV::Null, ValueV::Null) => true,
        (ValueV::Error(x), ValueV::Error(y)) => x == y,
        (ValueV::Ptr(x), ValueV::Ptr(y)) => x == y,
        _ => false,
    }
}

/// The hexadecimal digit of a value below sixteen.
pub open spec fn hex_digit(d: nat) -> char {
    if d % 16 < 10 {
        (48 + d % 16) as char
    } else {
        (87 + d % 16) as char
    }
}

/// The hexadecimal numeral of a natural number, without leading zeros.
pub open spec fn hex(n: nat) -> Seq<char>
    decreases n,
{
    if n < 16 {
        seq![hex_digit(n)]
    } else {
        hex(n / 16).push(hex_digit(n % 16))
    }
}

/// The hexadecimal digit of a value below sixteen.
pub fn hex_char(d: u64) -> (c: char)
    requires
        d < 16,
    ensures
        c == hex_digit(d as nat),
{
    if d == 0 { '0' } else if d == 1 { '1' } else if d == 2 { '2' } else if d == 3 { '3' } else if d
        == 4 { '4' } else if d == 5 { '5' } else if d == 6 { '6' } else if d == 7 { '7' } else if d
        == 8 { '8' } else if d == 9 { '9' } else if d == 10 { 'a' } else if d == 11 { 'b' } else if d
        == 12 { 'c' } else if d == 13 { 'd' } else if d == 14 { 'e' } else { 'f' }
}

/// The hexadecimal numeral of a natural number.
pub fn hex_u64(n: u64) -> (r: String)
    ensures
        r@ == hex(n as nat),
    decreases n,
{
    if n < 16 {
        let mut s = String::new();
        s.push(hex_char(n));
        assert(s@ =~= seq![hex_digit(n as nat)]);
        s
    } else {
        let mut s = hex_u64(n / 16);
        s.push(hex_char(n % 16));
        s
    }
}

/// A piece of the text of a value: text, or a floating-point number that is still to
/// be written out.
pub enum Piece {
    Text(String),
    Float(u64),
}

/// A piece, mathematically.
pub enum PieceV {
    Text(Seq<char>),
    Float(u64),
}

impl View for Piece {
    type V = PieceV;

    open spec fn view(&self) -> PieceV {
        match self {
            Piece::Text(s) => PieceV::Text(s@),
            Piece::Float(b) => PieceV::Float(*b),
        }
    }
}

/// Pieces, mathematically.
pub open spec fn pieces_v(ps: Seq<Piece>) -> Seq<PieceV> {
    ps.map_values(|p: Piece| p@)
}

/// The pieces of the text of a value.
pub open spec fn shown(v: ValueV) -> Seq<PieceV>
    decreases v, 0int,
{
    match v {
        ValueV::Int(n) => seq![PieceV::Text(idec(n as int))],
        ValueV::Float(b) => seq![PieceV::Float(b)],
        ValueV::Bool(b) => seq![PieceV::Text(if b { "true"@ } else { "false"@ })],
        ValueV::Str(s) => seq![PieceV::Text(s)],
        ValueV::List(vs) => seq![PieceV::Text("["@)] + shown_items(vs, vs.len() as int) + seq![
            PieceV::Text("]"@),
        ],
        ValueV::Dict(es) => seq![PieceV::Text("{"@)] + shown_entries(es, es.len() as int) + seq![
            PieceV::Text("}"@),
        ],
        ValueV::Null => seq![PieceV::Text("null"@)],
        ValueV::Error(e) => seq![PieceV::Text("error["@ + e.code + "]: "@ + e.message)],
        ValueV::Ptr(p) => seq![PieceV::Text("0x"@ + hex(p as nat))],
    }
}

/// The pieces of the first `n` items of a list, between commas.
pub open spec fn shown_items(vs: Seq<ValueV>, n: int) -> Seq<PieceV>
    decreases vs, n,
{
    if n <= 0 || n > vs.len() {
        Seq::empty()
    } else if n == 1 {
        shown(vs[0])
    } else {
        shown_items(vs, n - 1) + seq![PieceV::Text(", "@)] + shown(vs[n - 1])
    }
}

/// The pieces of the first `n` entries of a dictionary, between commas.
pub open spec fn shown_entries(es: Seq<(Seq<char>, ValueV)>, n: int) -> Seq<PieceV>
    decreases es, n,
{
    if n <= 0 || n > es.len() {
        Seq::empty()
    } else {
        let one = seq![PieceV::Text(es[n - 1].0 + ": "@)] + shown(es[n - 1].1);
        if n == 1 {
            one
        } else {
            shown_entries(es, n - 1) + seq![PieceV::Text(", "@)] + one
        }
    }
}

/// The floating-point numbers among the first `n` pieces.
pub open spec fn floats_of(ps: Seq<PieceV>, n: int) -> Seq<u64>
    decreases n,
{
    if n <= 0 || n > ps.len() {
        Seq::empty()
    } else {
        match ps[n - 1] {
            PieceV::Text(_) => floats_of(ps, n - 1),
            PieceV::Float(b) => floats_of(ps, n - 1).push(b),
        }
    }
}

/// The text of the first `n` pieces, where `texts` are the written floating-point
/// numbers in order; one that was not written is left out.
pub open spec fn assembled(ps: Seq<PieceV>, texts: Seq<Seq<char>>, n: int) -> Seq<char>
    decreases n,
{
    if n <= 0 || n > ps.len() {
        Seq::empty()
    } else {
        let front = assembled(ps, texts, n - 1);
        match ps[n - 1] {
            PieceV::Text(t) => front + t,
            PieceV::Float(_) => {
                let k = floats_of(ps, n - 1).len() as int;
                if k < texts.len() {
                    front + texts[k]
                } else {
                    front
                }
            },
        }
    }
}

/// The text of a value, where `texts` are its written floating-point numbers.
pub open spec fn display_of(v: ValueV, texts: Seq<Seq<char>>) -> Seq<char> {
    assembled(shown(v), texts, shown(v).len() as int)
}

/// The floating-point numbers among pieces.
pub fn piece_floats(ps: &Vec<Piece>) -> (r: Vec<u64>)
    ensures
        r@ == floats_of(pieces_v(ps@), ps@.len() as int),
{
    let mut out: Vec<u64> = Vec::new();
    let mut i: usize = 0;
    while i < ps.len()
        invariant
            i <= ps.len(),
            out@ == floats_of(pieces_v(ps@), i as int),
        decreases ps.len() - i,
    {
        assert(pieces_v(ps@)[i as int] == ps@[i as int]@);
        match &ps[i] {
            Piece::Text(_) => {},
            Piece::Float(b) => {
                out.push(*b);
            },
        }
        i = i + 1;
    }
    out
}

/// The text of pieces, where `texts` are the written floating-point numbers.
pub fn assemble(ps: &Vec<Piece>, texts: &Vec<String>) -> (r: String)
    ensures
        r@ == assembled(pieces_v(ps@), crate::text::strs(texts@), ps@.len() as int),
{
    let ghost pv = pieces_v(ps@);
    let ghost ts = crate::text::strs(texts@);
    let mut out = String::new();
    let mut k: usize = 0;
    let mut i: usize = 0;
    while i < ps.len()
        invariant
            i <= ps.len(),
            k <= i,
            pv == pieces_v(ps@),
            ts == crate::text::strs(texts@),
            k == floats_of(pv, i as int).len(),
            out@ == assembled(pv, ts, i as int),
        decreases ps.len() - i,
    {
        assert(pv[i as int] == ps@[i as int]@);
        match &ps[i] {
            Piece::Text(t) => {
                out.append(t.as_str());
            },
            Piece::Float(_) => {
                if k < texts.len() {
                    assert(ts[k as int] == texts@[k as int]@);
                    out.append(texts[k].as_str());
                }
                k = k + 1;
            },
        }
        i = i + 1;
    }
    out
}

fn push_text(out: &mut Vec<Piece>, t: &str)
    ensures
        pieces_v(final(out)@) == pieces_v(old(out)@) + seq![PieceV::Text(t@)],
{
    let ghost before = out@;
    let p = Piece::Text(t.to_owned());
    out.push(p);
    assert(pieces_v(out@) =~= pieces_v(before) + seq![PieceV::Text(t@)]);
}

impl Value {
    /// The name of the type of the value.
    pub fn kind_name(&self) -> (r: &'static str)
        ensures
            r@ == self@.type_text(),
    {
        match self {
            Value::Int(_) => "int",
            Value::Float(_) => "float",
            Value::Bool(_) => "bool",
            Value::Str(_) => "str",
            Value::List(_) => "list",
            Value::Dict(_) => "dict",
            Value::Null => "null",
            Value::Error(_) => "error",
            Value::Ptr(_) => "ptr",
        }
    }

    /// Adds the pieces of the text of the value to `out`.
    pub fn pieces(&self, out: &mut Vec<Piece>)
        ensures
            pieces_v(final(out)@) == pieces_v(old(out)@) + shown(self@),
        decreases self,
    {
        let ghost start = pieces_v(out@);
        match self {
            Value::Int(n) => push_text(out, dec_i64(*n).as_str()),
            Value::Float(b) => {
                let ghost before = out@;
                out.push(Piece::Float(*b));
                assert(pieces_v(out@) =~= pieces_v(before) + seq![PieceV::Float(*b)]);
            },
            Value::Bool(b) => push_text(out, if *b { "true" } else { "false" }),
            Value::Str(s) => push_text(out, s.as_str()),
            Value::List(vs) => {
                push_text(out, "[");
                let ghost vv = values_v(vs@);
                let ghost head = seq![PieceV::Text("["@)];
                let mut i: usize = 0;
                assert(start + head + shown_items(vv, 0) =~= start + head);
                while i < vs.len()
                    invariant
                        i <= vs.len(),
                        vv == values_v(vs@),
                        decreases_to!(self => vs),
                        pieces_v(out@) == start + head + shown_items(vv, i as int),
                    decreases vs.len() - i,
                {
                    assert(vv[i as int] == vs@[i as int]@);
                    assert(decreases_to!(vs@ => vs@[i as int]));
                    if i > 0 {
                        push_text(out, ", ");
                    }
                    vs[i].pieces(out);
                    proof {
                        if i > 0 {
                            assert(start + head + shown_items(vv, i as int) + seq![
                                PieceV::Text(", "@),
                            ] + shown(vv[i as int]) =~= start + head + shown_items(vv, i + 1));
                        } else {
                            assert(start + head + shown_items(vv, 0) + shown(vv[0]) =~= start + head
                                + shown_items(vv, 1));
                        }
                    }
                    i = i + 1;
                }
                push_text(out, "]");
                assert(start + head + shown_items(vv, vv.len() as int) + seq![PieceV::Text("]"@)]
                    =~= start + (head + shown_items(vv, vv.len() as int) + seq![
                    PieceV::Text("]"@),
                ]));
            },
            Value::Dict(es) => {
                push_text(out, "{");
                let ghost ev = dict_v(es@);
                let ghost head = seq![PieceV::Text("{"@)];
                let mut i: usize = 0;
                assert(start + head + shown_entries(ev, 0) =~= start + head);
                while i < es.len()
                    invariant
                        i <= es.len(),
                        ev == dict_v(es@),
                        decreases_to!(self => es),
                        pieces_v(out@) == start + head + shown_entries(ev, i as int),
                    decreases es.len() - i,
                {
                    assert(ev[i as int] == (es@[i as int].0@, es@[i as int].1@));
                    assert(decreases_to!(es@ => es@[i as int]));
                    let ghost one = seq![PieceV::Text(ev[i as int].0 + ": "@)] + shown(
                        ev[i as int].1,
                    );
                    if i > 0 {
                        push_text(out, ", ");
                    }
                    let key = crate::text::cat2(es[i].0.as_str(), ": ");
                    push_text(out, key.as_str());
                    es[i].1.pieces(out);
                    proof {
                        if i > 0 {
                            assert(start + head + shown_entries(ev, i as int) + seq![
                                PieceV::Text(", "@),
                            ] + seq![PieceV::Text(ev[i as int].0 + ": "@)] + shown(ev[i as int].1)
                                =~= start + head + (shown_entries(ev, i as int) + seq![
                                PieceV::Text(", "@),
                            ] + one));
                        } else {
                            assert(start + head + shown_entries(ev, 0) + seq![
                                PieceV::Text(ev[0].0 + ": "@),
                            ] + shown(ev[0].1) =~= start + head + one);
                        }
                    }
                    i = i + 1;
                }
                push_text(out, "}");
                assert(start + head + shown_entries(ev, ev.len() as int) + seq![PieceV::Text("}"@)]
                    =~= start + (head + shown_entries(ev, ev.len() as int) + seq![
                    PieceV::Text("}"@),
                ]));
            },
            Value::Null => push_text(out, "null"),
            Value::Error(e) => {
                let mut t = cat3("error[", e.code, "]: ");
                t.append(e.message.as_str());
                push_text(out, t.as_str());
            },
            Value::Ptr(p) => {
                let t = crate::text::cat2("0x", hex_u64(*p as u64).as_str());
                push_text(out, t.as_str());
            },
        }
    }

    /// The text of the value, where `texts` are its floating-point numbers written out
    /// in order.
    pub fn display(&self, texts: &Vec<String>) -> (r: String)
        ensures
            r@ == display_of(self@, crate::text::strs(texts@)),
    {
        let mut ps: Vec<Piece> = Vec::new();
        assert(pieces_v(ps@) =~= Seq::empty());
        self.pieces(&mut ps);
        assert(pieces_v(ps@) =~= shown(self@));
        assemble(&ps, texts)
    }

    /// A copy.
    pub fn dup(&self) -> (r: Value)
        ensures
            r@ == self@,
        decreases self,
    {
        match self {
            Value::Int(n) => Value::Int(*n),
            Value::Float(b) => Value::Float(*b),
            Value::Bool(b) => Value::Bool(*b),
            Value::Str(s) => Value::Str(s.clone()),
            Value::List(vs) => {
                let mut out: Vec<Value> = Vec::new();
                let mut i: usize = 0;
                while i < vs.len()
                    invariant
                        i <= vs.len(),
                        decreases_to!(self => vs),
                        values_v(out@) =~= values_v(vs@).take(i as int),
                    decreases vs.len() - i,
                {
                    assert(decreases_to!(vs@ => vs@[i as int]));
                    let v = vs[i].dup();
                    proof {
                        assert(values_v(vs@)[i as int] == v@);
                        assert(values_v(out@.push(v)) =~= values_v(out@).push(v@));
                    }
                    out.push(v);
                    i = i + 1;
                }
                assert(values_v(vs@).take(i as int) =~= values_v(vs@));
                Value::List(out)
            },
            Value::Dict(es) => {
                let mut out: Vec<(String, Value)> = Vec::new();
                let mut i: usize = 0;
                while i < es.len()
                    invariant
                        i <= es.len(),
                        decreases_to!(self => es),
                        dict_v(out@) =~= dict_v(es@).take(i as int),
                    decreases es.len() - i,
                {
                    assert(decreases_to!(es@ => es@[i as int]));
                    let k = es[i].0.clone();
                    let v = es[i].1.dup();
                    proof {
                        assert(dict_v(es@)[i as int] == (k@, v@));
                        assert(dict_v(out@.push((k, v))) =~= dict_v(out@).push((k@, v@)));
                    }
                    out.push((k, v));
                    i = i + 1;
                }
                assert(dict_v(es@).take(i as int) =~= dict_v(es@));
                Value::Dict(out)
            },
            Value::Null => Value::Null,
            Value::Error(e) => Value::Error(e.dup()),
            Value::Ptr(p) => Value::Ptr(*p),
        }
    }

    /// Whether two values are the same.
    pub fn same(&self, o: &Value) -> (r: bool)
        ensures
            r == same_value(self@, o@),
        decreases self,
    {
        match (self, o) {
            (Value::Int(x), Value::Int(y)) => *x == *y,
            (Value::Float(x), Value::Float(y)) => floats_equal(*x, *y),
            (Value::Bool(x), Value::Bool(y)) => *x == *y,
            (Value::Str(x), Value::Str(y)) => eq(x.as_str(), y.as_str()),
            (Value::List(x), Value::List(y)) => {
                if x.len() != y.len() {
                    return false;
                }
                let mut i: usize = 0;
                while i < x.len()
                    invariant
                        i <= x.len() == y.len(),
                        decreases_to!(self => x),
                        self@ == ValueV::List(values_v(x@)),
                        o@ == ValueV::List(values_v(y@)),
                        forall|j: int|
                            0 <= j < i ==> same_value(
                                #[trigger] values_v(x@)[j],
                                values_v(y@)[j],
                            ),
                    decreases x.len() - i,
                {
                    assert(decreases_to!(x@ => x@[i as int]));
                    assert(values_v(x@)[i as int] == x@[i as int]@);
                    assert(values_v(y@)[i as int] == y@[i as int]@);
                    if !x[i].same(&y[i]) {
                        return false;
                    }
                    i = i + 1;
                }
                true
            },
            (Value::Dict(x), Value::Dict(y)) => {
                if x.len() != y.len() {
                    return false;
                }
                let mut i: usize = 0;
                while i < x.len()
                    invariant
                        i <= x.len() == y.len(),
                        decreases_to!(self => x),
                        self@ == ValueV::Dict(dict_v(x@)),
                        o@ == ValueV::Dict(dict_v(y@)),
                        forall|j: int|
                            0 <= j < i ==> (#[trigger] dict_v(x@)[j]).0 == dict_v(y@)[j].0
                                && same_value(dict_v(x@)[j].1, dict_v(y@)[j].1),
                    decreases x.len() - i,
                {
                    assert(decreases_to!(x@ => x@[i as int]));
                    assert(dict_v(x@)[i as int] == (x@[i as int].0@, x@[i as int].1@));
                    assert(dict_v(y@)[i as int] == (y@[i as int].0@, y@[i as int].1@));
                    if !eq(x[i].0.as_str(), y[i].0.as_str()) || !x[i].1.same(&y[i].1) {
                        return false;
                    }
                    i = i + 1;
                }
                true
            },
            (Value::Null, Value::Null) => true,
            (Value::Error(x), Value::Error(y)) => x.same(y),
            (Value::Ptr(x), Value::Ptr(y)) => *x == *y,
            _ => false,
        }
    }
}

} // verus!
