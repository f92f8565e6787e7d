//! What a built-in function is called with, what it gives, and what it asks of the world
//! outside.

use vstd::prelude::*;

use crate::error::{err_at, opt_str, ErrV, ZError};
use crate::lexer::Span;
use crate::text::strs;
use crate::value::{pieces_v, value_v, values_v, Piece, PieceV, Value, ValueV};

verus! {

/// Where a call stands: a place in a source text, run on Windows or elsewhere.
#[derive(Clone, Copy)]
pub struct Place<'a> {
    pub file: &'a str,
    pub src: &'a str,
    pub span: Span,
    pub windows: bool,
}

/// Where a call stands, mathematically.
pub struct PlaceV {
    pub file: Seq<char>,
    pub src: Seq<char>,
    pub span: Span,
    pub windows: bool,
}

impl<'a> View for Place<'a> {
    type V = PlaceV;

    open spec fn view(&self) -> PlaceV {
        PlaceV { file: self.file@, src: self.src@, span: self.span, windows: self.windows }
    }
}

/// An error at a place.
pub open spec fn fault(p: PlaceV, code: Seq<char>, msg: Seq<char>, help: Option<Seq<char>>) -> ErrV {
    err_at(
        code,
        msg,
        p.file,
        p.src,
        p.span.line as nat,
        p.span.col as nat,
        if p.span.len == 0 { 1 } else { p.span.len as nat },
        help,
    )
}

impl<'a> Place<'a> {
    /// An error at the place.
    pub fn fault(&self, code: &'static str, msg: &str, help: Option<&str>) -> (r: ZError)
        ensures
            r@ == fault(self@, code@, msg@, opt_str(help)),
    {
        let len: usize = if self.span.len == 0 { 1 } else { self.span.len };
        ZError::new(code, msg, self.file, self.src, self.span.line, self.span.col, len, help)
    }
}

/// What went wrong in a system call, as far as it matters.
#[derive(Debug, Clone, Copy, PartialEq, Eq, Structural)]
pub enum IoKind {
    NotFound,
    PermissionDenied,
    WouldBlock,
    ResourceBusy,
    Interrupted,
    TimedOut,
    ConnectionRefused,
    AddrNotAvailable,
    Other,
}

/// The step of a network request that went wrong.
#[derive(Debug, Clone, Copy, PartialEq, Eq, Structural)]
pub enum NetStep {
    Connect,
    Write,
    Read,
    TlsSetup,
    HostName,
    Handshake,
}

/// An operation on two floating-point numbers.
#[derive(Debug, Clone, Copy, PartialEq, Eq, Structural)]
pub enum FloatOp {
    Plus,
    Minus,
    Times,
    Over,
    Rest,
    Max,
    Min,
}

/// A number of either type.
#[derive(Debug, Clone, Copy, PartialEq, Eq, Structural)]
pub enum Num {
    Int(i64),
    Float(u64),
}

/// A network request.
pub struct HttpCall {
    pub tls: bool,
    pub host: String,
    pub addr: String,
    pub head: String,
    pub body: String,
}

/// A network request, mathematically.
pub struct HttpCallV {
    pub tls: bool,
    pub host: Seq<char>,
    pub addr: Seq<char>,
    pub head: Seq<char>,
    pub body: Seq<char>,
}

impl View for HttpCall {
    type V = HttpCallV;

    open spec fn view(&self) -> HttpCallV {
        HttpCallV {
            tls: self.tls,
            host: self.host@,
            addr: self.addr@,
            head: self.head@,
            body: self.body@,
        }
    }
}

/// A step of unpacking an archive: a directory, or a file with its content.
pub enum Unpack {
    Dir(String),
    File(String, Vec<u8>),
}

/// A step of unpacking an archive, mathematically.
pub enum UnpackV {
    Dir(Seq<char>),
    File(Seq<char>, Seq<u8>),
}

impl View for Unpack {
    type V = UnpackV;

    open spec fn view(&self) -> UnpackV {
        match *self {
            Unpack::Dir(n) => UnpackV::Dir(n@),
            Unpack::File(n, d) => UnpackV::File(n@, d@),
        }
    }
}

/// The mathematical form of the steps of unpacking.
pub open spec fn unpacks_v(s: Seq<Unpack>) -> Seq<UnpackV> {
    s.map_values(|u: Unpack| u@)
}

/// The mathematical form of entries.
pub open spec fn entries_b(s: Seq<(String, Vec<u8>)>) -> Seq<(Seq<char>, Seq<u8>)> {
    s.map_values(|e: (String, Vec<u8>)| (e.0@, e.1@))
}

/// What a built-in function asks of the world outside.
pub enum Request {
    /// Write a line.
    Print(String),
    /// Write a line to the log.
    Log(String),
    /// The content of a file as text.
    ReadFile(String),
    /// Write a text to a file.
    WriteFile(String, String),
    FileExists(String),
    /// The texts of floating-point numbers.
    FloatTexts(Vec<u64>),
    /// The texts of floating-point numbers in JSON.
    JsonFloats(Vec<u64>),
    /// The floating-point number that a text gives, if it gives one.
    FloatFromText(String),
    FloatFromInt(i64),
    /// The integer part of a finite floating-point number.
    FloatToInt(u64),
    Float(FloatOp, u64, u64),
    /// The floating-point number that is so many units of two to the power of minus 53.
    FloatUnit(u64),
    /// The time in seconds since the first of January 1970.
    Now,
    Sleep(Num),
    Http(HttpCall),
    /// What a shell command writes.
    Run(String),
    EnvGet(String),
    EnvSet(String, String),
    /// A function of the desktop.
    Sys(String, Vec<Value>),
    /// Write the state file.
    SaveState(String, String),
    /// Listen on a port of this machine.
    Listen(u16),
    /// Answer a request of the server.
    Deliver(u64, u16, String),
    /// A block of memory of a size.
    Alloc(usize),
    /// Give back the block at an address, of a size.
    Free(usize, usize),
    /// The bytes at an offset of the block at an address, so many of them.
    Peek(usize, usize, usize),
    /// Write bytes at an offset of the block at an address, so many of them.
    Poke(usize, usize, usize, u64),
    /// The content of a file as bytes.
    OpenArchive(String),
    /// Make an empty file.
    CreateFile(String),
    /// Write bytes to a file.
    WriteBytes(String, Vec<u8>),
    /// The tar.gz file of entries.
    PackTgz(Vec<(String, Vec<u8>)>),
    /// Unpack into a directory.
    UnpackInto(String, Vec<Unpack>),
    /// Try to load a library.
    LoadLib(String),
}

/// What a built-in function asks, mathematically.
pub enum RequestV {
    Print(Seq<char>),
    Log(Seq<char>),
    ReadFile(Seq<char>),
    WriteFile(Seq<char>, Seq<char>),
    FileExists(Seq<char>),
    FloatTexts(Seq<u64>),
    JsonFloats(Seq<u64>),
    FloatFromText(Seq<char>),
    FloatFromInt(i64),
    FloatToInt(u64),
    Float(FloatOp, u64, u64),
    FloatUnit(u64),
    Now,
    Sleep(Num),
    Http(HttpCallV),
    Run(Seq<char>),
    EnvGet(Seq<char>),
    EnvSet(Seq<char>, Seq<char>),
    Sys(Seq<char>, Seq<ValueV>),
    SaveState(Seq<char>, Seq<char>),
    Listen(u16),
    Deliver(u64, u16, Seq<char>),
    Alloc(usize),
    Free(usize, usize),
    Peek(usize, usize, usize),
    Poke(usize, usize, usize, u64),
    OpenArchive(Seq<char>),
    CreateFile(Seq<char>),
    WriteBytes(Seq<char>, Seq<u8>),
    PackTgz(Seq<(Seq<char>, Seq<u8>)>),
    UnpackInto(Seq<char>, Seq<UnpackV>),
    LoadLib(Seq<char>),
}

impl View for Request {
    type V = RequestV;

    open spec fn view(&self) -> RequestV {
        match *self {
            Request::Print(s) => RequestV::Print(s@),
            Request::Log(s) => RequestV::Log(s@),
            Request::ReadFile(s) => RequestV::ReadFile(s@),
            Request::WriteFile(s, t) => RequestV::WriteFile(s@, t@),
            Request::FileExists(s) => RequestV::FileExists(s@),
            Request::FloatTexts(v) => RequestV::FloatTexts(v@),
            Request::JsonFloats(v) => RequestV::JsonFloats(v@),
            Request::FloatFromText(s) => RequestV::FloatFromText(s@),
            Request::FloatFromInt(i) => RequestV::FloatFromInt(i),
            Request::FloatToInt(b) => RequestV::FloatToInt(b),
            Request::Float(op, a, b) => RequestV::Float(op, a, b),
            Request::FloatUnit(k) => RequestV::FloatUnit(k),
            Request::Now => RequestV::Now,
            Request::Sleep(n) => RequestV::Sleep(n),
            Request::Http(h) => RequestV::Http(h@),
            Request::Run(s) => RequestV::Run(s@),
            Request::EnvGet(s) => RequestV::EnvGet(s@),
            Request::EnvSet(s, t) => RequestV::EnvSet(s@, t@),
            Request::Sys(s, v) => RequestV::Sys(s@, values_v(v@)),
            Request::SaveState(s, t) => RequestV::SaveState(s@, t@),
            Request::Listen(p) => RequestV::Listen(p),
            Request::Deliver(i, c, b) => RequestV::Deliver(i, c, b@),
            Request::Alloc(n) => RequestV::Alloc(n),
            Request::Free(a, n) => RequestV::Free(a, n),
            Request::Peek(a, o, n) => RequestV::Peek(a, o, n),
            Request::Poke(a, o, n, b) => RequestV::Poke(a, o, n, b),
            Request::OpenArchive(s) => RequestV::OpenArchive(s@),
            Request::CreateFile(s) => RequestV::CreateFile(s@),
            Request::WriteBytes(s, b) => RequestV::WriteBytes(s@, b@),
            Request::PackTgz(e) => RequestV::PackTgz(entries_b(e@)),
            Request::UnpackInto(s, u) => RequestV::UnpackInto(s@, unpacks_v(u@)),
            Request::LoadLib(s) => RequestV::LoadLib(s@),
        }
    }
}

/// What the world outside answers.
pub enum Reply {
    Done,
    Flag(bool),
    Int(i64),
    Float(u64),
    MaybeFloat(Option<u64>),
    Text(String),
    MaybeText(Option<String>),
    Texts(Vec<String>),
    Bytes(Vec<u8>),
    /// What a command wrote to its two streams.
    Output(Vec<u8>, Vec<u8>),
    Addr(usize),
    Bits(u64),
    Value(Value),
    Error(ZError),
    /// A system call went wrong.
    Trouble(IoKind, String),
    /// A step of a network request went wrong.
    NetTrouble(NetStep, IoKind, String),
    /// Unpacking went wrong: whether at a directory, at which path, and how.
    UnpackTrouble(bool, String, String),
    /// Packing went wrong: at which entry or at the end, and how.
    PackTrouble(Option<String>, String),
}

/// What the world outside answers, mathematically.
pub enum ReplyV {
    Done,
    Flag(bool),
    Int(i64),
    Float(u64),
    MaybeFloat(Option<u64>),
    Text(Seq<char>),
    MaybeText(Option<Seq<char>>),
    Texts(Seq<Seq<char>>),
    Bytes(Seq<u8>),
    Output(Seq<u8>, Seq<u8>),
    Addr(usize),
    Bits(u64),
    Value(ValueV),
    Error(ErrV),
    Trouble(IoKind, Seq<char>),
    NetTrouble(NetStep, IoKind, Seq<char>),
    UnpackTrouble(bool, Seq<char>, Seq<char>),
    PackTrouble(Option<Seq<char>>, Seq<char>),
}

impl View for Reply {
    type V = ReplyV;

    open spec fn view(&self) -> ReplyV {
        match *self {
            Reply::Done => ReplyV::Done,
            Reply::Flag(b) => ReplyV::Flag(b),
            Reply::Int(i) => ReplyV::Int(i),
            Reply::Float(b) => ReplyV::Float(b),
            Reply::MaybeFloat(o) => ReplyV::MaybeFloat(o),
            Reply::Text(s) => ReplyV::Text(s@),
            Reply::MaybeText(o) => ReplyV::MaybeText(crate::error::opt_text(o)),
            Reply::Texts(v) => ReplyV::Texts(strs(v@)),
            Reply::Bytes(v) => ReplyV::Bytes(v@),
            Reply::Output(a, b) => ReplyV::Output(a@, b@),
            Reply::Addr(a) => ReplyV::Addr(a),
            Reply::Bits(b) => ReplyV::Bits(b),
            Reply::Value(v) => ReplyV::Value(v@),
            Reply::Error(e) => ReplyV::Error(e@),
            Reply::Trouble(k, s) => ReplyV::Trouble(k, s@),
            Reply::NetTrouble(t, k, s) => ReplyV::NetTrouble(t, k, s@),
            Reply::UnpackTrouble(d, p, s) => ReplyV::UnpackTrouble(d, p@, s@),
            Reply::PackTrouble(n, s) => ReplyV::PackTrouble(crate::error::opt_text(n), s@),
        }
    }
}

/// What a built-in function still has to do when the answer is there.
pub enum Pending {
    /// Give nothing.
    Null,
    /// Give what was answered.
    Given,
    /// Write out a value whose floating-point numbers were asked for: print it or give it.
    Show(Vec<Piece>, bool),
    ReadFile(String),
    WriteFile(String),
    /// Give the number that a text gives.
    ToFloat(String),
    /// Give the number that an argument of the command line gives.
    ArgFloat(String, String),
    Sleep,
    Http(String),
    Run(String),
    EnvGet,
    SaveState(String),
    Listen(i64),
    /// Give `true`.
    True,
    /// Note down the block of memory of a size.
    Alloc(usize),
    PeekInt,
    PeekFloat,
    PeekByte,
    /// Write the number at an offset of the block at an address.
    PokeFloat(usize, usize),
    ZipList(String),
    ZipRead(String, String),
    ZipExtract(String, String),
    ZipCreate(String, Vec<(String, Vec<u8>)>),
    TgzList(String),
    TgzRead(String, String),
    TgzExtract(String, String),
    TgzCreate(String, Vec<(String, Vec<u8>)>),
    /// The entries are packed.
    TgzPacked(String),
    /// The archive file is written.
    Packed(String),
    /// Give how many files were unpacked, or the error that came behind them.
    Unpacked(i64, Option<ZError>),
    /// Register the library at a path under a name.
    LoadLib(String, String),
    /// Give the JSON text of a value.
    Json(Value),
}

/// What a built-in function still has to do, mathematically.
pub enum PendingV {
    Null,
    Given,
    Show(Seq<PieceV>, bool),
    ReadFile(Seq<char>),
    WriteFile(Seq<char>),
    ToFloat(Seq<char>),
    ArgFloat(Seq<char>, Seq<char>),
    Sleep,
    Http(Seq<char>),
    Run(Seq<char>),
    EnvGet,
    SaveState(Seq<char>),
    Listen(i64),
    True,
    Alloc(usize),
    PeekInt,
    PeekFloat,
    PeekByte,
    PokeFloat(usize, usize),
    ZipList(Seq<char>),
    ZipRead(Seq<char>, Seq<char>),
    ZipExtract(Seq<char>, Seq<char>),
    ZipCreate(Seq<char>, Seq<(Seq<char>, Seq<u8>)>),
    TgzList(Seq<char>),
    TgzRead(Seq<char>, Seq<char>),
    TgzExtract(Seq<char>, Seq<char>),
    TgzCreate(Seq<char>, Seq<(Seq<char>, Seq<u8>)>),
    TgzPacked(Seq<char>),
    Packed(Seq<char>),
    Unpacked(i64, Option<ErrV>),
    LoadLib(Seq<char>, Seq<char>),
    Json(ValueV),
}

/// The mathematical form of an optional error.
pub open spec fn opt_err(e: Option<ZError>) -> Option<ErrV> {
    match e {
        Some(x) => Some(x@),
        None => None,
    }
}

impl View for Pending {
    type V = PendingV;

    open spec fn view(&self) -> PendingV {
        match *self {
            Pending::Null => PendingV::Null,
            Pending::Given => PendingV::Given,
            Pending::Show(p, b) => PendingV::Show(pieces_v(p@), b),
            Pending::ReadFile(s) => PendingV::ReadFile(s@),
            Pending::WriteFile(s) => PendingV::WriteFile(s@),
            Pending::ToFloat(s) => PendingV::ToFloat(s@),
            Pending::ArgFloat(k, s) => PendingV::ArgFloat(k@, s@),
            Pending::Sleep => PendingV::Sleep,
            Pending::Http(s) => PendingV::Http(s@),
            Pending::Run(s) => PendingV::Run(s@),
            Pending::EnvGet => PendingV::EnvGet,
            Pending::SaveState(s) => PendingV::SaveState(s@),
            Pending::Listen(p) => PendingV::Listen(p),
            Pending::True => PendingV::True,
            Pending::Alloc(n) => PendingV::Alloc(n),
            Pending::PeekInt => PendingV::PeekInt,
            Pending::PeekFloat => PendingV::PeekFloat,
            Pending::PeekByte => PendingV::PeekByte,
            Pending::PokeFloat(a, o) => PendingV::PokeFloat(a, o),
            Pending::ZipList(s) => PendingV::ZipList(s@),
            Pending::ZipRead(s, t) => PendingV::ZipRead(s@, t@),
            Pending::ZipExtract(s, t) => PendingV::ZipExtract(s@, t@),
            Pending::ZipCreate(s, e) => PendingV::ZipCreate(s@, entries_b(e@)),
            Pending::TgzList(s) => PendingV::TgzList(s@),
            Pending::TgzRead(s, t) => PendingV::TgzRead(s@, t@),
            Pending::TgzExtract(s, t) => PendingV::TgzExtract(s@, t@),
            Pending::TgzCreate(s, e) => PendingV::TgzCreate(s@, entries_b(e@)),
            Pending::TgzPacked(s) => PendingV::TgzPacked(s@),
            Pending::Packed(s) => PendingV::Packed(s@),
            Pending::Unpacked(n, e) => PendingV::Unpacked(n, opt_err(e)),
            Pending::LoadLib(s, t) => PendingV::LoadLib(s@, t@),
            Pending::Json(v) => PendingV::Json(v@),
        }
    }
}

/// What a call of a built-in function comes to.
pub enum Out {
    Value(Value),
    Error(ZError),
    /// An answer is needed first.
    Ask(Request, Pending),
}

/// What a call comes to, mathematically.
pub enum OutV {
    Value(ValueV),
    Error(ErrV),
    Ask(RequestV, PendingV),
}

impl View for Out {
    type V = OutV;

    open spec fn view(&self) -> OutV {
        match *self {
            Out::Value(v) => OutV::Value(v@),
            Out::Error(e) => OutV::Error(e@),
            Out::Ask(r, p) => OutV::Ask(r@, p@),
        }
    }
}

/// An error, as what a call comes to.
pub open spec fn failed(p: PlaceV, code: Seq<char>, msg: Seq<char>, help: Option<Seq<char>>) -> OutV {
    OutV::Error(fault(p, code, msg, help))
}

/// An error, as what a call comes to.
pub fn fail(p: &Place, code: &'static str, msg: &str, help: Option<&str>) -> (r: Out)
    ensures
        r@ == failed(p@, code@, msg@, opt_str(help)),
{
    Out::Error(p.fault(code, msg, help))
}

/// A copy of arguments.
pub fn dup_all(vs: &Vec<Value>) -> (r: Vec<Value>)
    ensures
        values_v(r@) == values_v(vs@),
{
    let mut out: Vec<Value> = Vec::new();
    let mut i: usize = 0;
    while i < vs.len()
        invariant
            i <= vs.len(),
            out.len() == i,
            forall|k: int| 0 <= k < i ==> value_v(#[trigger] out@[k]) == value_v(vs@[k]),
        decreases vs.len() - i,
    {
        out.push(vs[i].dup());
        i = i + 1;
    }
    assert(values_v(out@) =~= values_v(vs@));
    out
}

} // verus!
