//! Tokens and the scanner that makes them.

use vstd::prelude::*;

pub mod spelled;

use crate::error::{codes, err_at, ErrV, ZError};
use crate::text::{
    all_digits, cat3, chars, eq, is_digit, nat_of, parse_nat, slice,
};

verus! {

/// A place in a source text: line and column (both counted from one), and a length.
#[derive(Debug, Clone, Copy, PartialEq, Eq, Structural)]
pub struct Span {
    pub line: usize,
    pub col: usize,
    pub len: usize,
}

/// The tokens without a payload: keywords, punctuation and the end of the text.
#[derive(Debug, Clone, Copy, PartialEq, Eq, Structural)]
pub enum Key {
    TInt,
    TFloat,
    TBool,
    TStr,
    True,
    False,
    Fn,
    If,
    Else,
    While,
    For,
    In,
    Return,
    Go,
    Try,
    Catch,
    Throw,
    Breakpoint,
    Load,
    Lazy,
    Use,
    Import,
    From,
    Alias,
    As,
    Tmp,
    Struct,
    Match,
    At,
    LParen,
    RParen,
    LBrace,
    RBrace,
    LBracket,
    RBracket,
    Comma,
    Colon,
    Semi,
    Dot,
    Arrow,
    FatArrow,
    Assign,
    Plus,
    Minus,
    Star,
    Slash,
    Percent,
    EqEq,
    NotEq,
    Lt,
    Le,
    Gt,
    Ge,
    AndAnd,
    OrOr,
    Bang,
    Pipe,
    Eof,
}

/// A piece of an interpolated text: literal text (with doubled braces as written) or
/// the code between braces.
pub enum FStrPart {
    Lit(String),
    Code(String),
}

/// A token.
pub enum Tok {
    Ident(String),
    IntLit(i64),
    /// A floating-point literal, by its digits.
    FloatLit(String),
    StrLit(String),
    FStr(Vec<FStrPart>),
    Key(Key),
}

/// A piece of an interpolated text, mathematically.
pub enum PartV {
    Lit(Seq<char>),
    Code(Seq<char>),
}

/// A token, mathematically.
pub enum TokV {
    Ident(Seq<char>),
    IntLit(i64),
    FloatLit(Seq<char>),
    StrLit(Seq<char>),
    FStr(Seq<PartV>),
    Key(Key),
}

impl View for FStrPart {
    type V = PartV;

    open spec fn view(&self) -> PartV {
        match self {
            FStrPart::Lit(s) => PartV::Lit(s@),
            FStrPart::Code(s) => PartV::Code(s@),
        }
    }
}

/// Pieces, mathematically.
pub open spec fn parts_v(ps: Seq<FStrPart>) -> Seq<PartV> {
    ps.map_values(|p: FStrPart| p@)
}

impl View for Tok {
    type V = TokV;

    open spec fn view(&self) -> TokV {
        match self {
            Tok::Ident(s) => TokV::Ident(s@),
            Tok::IntLit(n) => TokV::IntLit(*n),
            Tok::FloatLit(s) => TokV::FloatLit(s@),
            Tok::StrLit(s) => TokV::StrLit(s@),
            Tok::FStr(ps) => TokV::FStr(parts_v(ps@)),
            Tok::Key(k) => TokV::Key(*k),
        }
    }
}

/// Tokens with their places, mathematically.
pub open spec fn toks_v(ts: Seq<(Tok, Span)>) -> Seq<(TokV, Span)> {
    ts.map_values(|t: (Tok, Span)| (t.0@, t.1))
}

impl Key {
    /// How the token is written.
    pub open spec fn text(self) -> Seq<char> {
        match self {
            Key::TInt => "int"@,
            Key::TFloat => "float"@,
            Key::TBool => "bool"@,
            Key::TStr => "str"@,
            Key::True => "true"@,
            Key::False => "false"@,
            Key::Fn => "fn"@,
            Key::If => "if"@,
            Key::Else => "else"@,
            Key::While => "while"@,
            Key::For => "for"@,
            Key::In => "in"@,
            Key::Return => "return"@,
            Key::Go => "go"@,
            Key::Try => "try"@,
            Key::Catch => "catch"@,
            Key::Throw => "throw"@,
            Key::Breakpoint => "breakpoint"@,
            Key::Load => "load"@,
            Key::Lazy => "lazy"@,
            Key::Use => "use"@,
            Key::Import => "import"@,
            Key::From => "from"@,
            Key::Alias => "alias"@,
            Key::As => "as"@,
            Key::Tmp => "tmp"@,
            Key::Struct => "struct"@,
            Key::Match => "match"@,
            Key::At => "@"@,
            Key::LParen => "("@,
            Key::RParen => ")"@,
            Key::LBrace => "{"@,
            Key::RBrace => "}"@,
            Key::LBracket => "["@,
            Key::RBracket => "]"@,
            Key::Comma => ","@,
            Key::Colon => ":"@,
            Key::Semi => ";"@,
            Key::Dot => "."@,
            Key::Arrow => "->"@,
            Key::FatArrow => "=>"@,
            Key::Assign => "="@,
            Key::Plus => "+"@,
            Key::Minus => "-"@,
            Key::Star => "*"@,
            Key::Slash => "/"@,
            Key::Percent => "%"@,
            Key::EqEq => "=="@,
            Key::NotEq => "!="@,
            Key::Lt => "<"@,
            Key::Le => "<="@,
            Key::Gt => ">"@,
            Key::Ge => ">="@,
            Key::AndAnd => "&&"@,
            Key::OrOr => "||"@,
            Key::Bang => "!"@,
            Key::Pipe => "|>"@,
            Key::Eof => "end of file"@,
        }
    }

    /// How the token is written.
    pub fn written(&self) -> (r: &'static str)
        ensures
            r@ == self.text(),
    {
        match self {
            Key::TInt => "int",
            Key::TFloat => "float",
            Key::TBool => "bool",
            Key::TStr => "str",
            Key::True => "true",
            Key::False => "false",
            Key::Fn => "fn",
            Key::If => "if",
            Key::Else => "else",
            Key::While => "while",
            Key::For => "for",
            Key::In => "in",
            Key::Return => "return",
            Key::Go => "go",
            Key::Try => "try",
            Key::Catch => "catch",
            Key::Throw => "throw",
            Key::Breakpoint => "breakpoint",
            Key::Load => "load",
            Key::Lazy => "lazy",
            Key::Use => "use",
            Key::Import => "import",
            Key::From => "from",
            Key::Alias => "alias",
            Key::As => "as",
            Key::Tmp => "tmp",
            Key::Struct => "struct",
            Key::Match => "match",
            Key::At => "@",
            Key::LParen => "(",
            Key::RParen => ")",
            Key::LBrace => "{",
            Key::RBrace => "}",
            Key::LBracket => "[",
            Key::RBracket => "]",
            Key::Comma => ",",
            Key::Colon => ":",
            Key::Semi => ";",
            Key::Dot => ".",
            Key::Arrow => "->",
            Key::FatArrow => "=>",
            Key::Assign => "=",
            Key::Plus => "+",
            Key::Minus => "-",
            Key::Star => "*",
            Key::Slash => "/",
            Key::Percent => "%",
            Key::EqEq => "==",
            Key::NotEq => "!=",
            Key::Lt => "<",
            Key::Le => "<=",
            Key::Gt => ">",
            Key::Ge => ">=",
            Key::AndAnd => "&&",
            Key::OrOr => "||",
            Key::Bang => "!",
            Key::Pipe => "|>",
            Key::Eof => "end of file",
        }
    }
}

impl TokV {
    /// How a token is named in an error.
    pub open spec fn describe(self) -> Seq<char> {
        match self {
            TokV::Ident(s) => "identifier `"@ + s + "`"@,
            TokV::IntLit(_) => "integer literal"@,
            TokV::FloatLit(_) => "float literal"@,
            TokV::StrLit(_) => "string literal"@,
            TokV::FStr(_) => "f-string"@,
            TokV::Key(k) => k.text(),
        }
    }
}

impl Tok {
    /// How a token is named in an error.
    pub fn describe(&self) -> (r: String)
        ensures
            r@ == self@.describe(),
    {
        match self {
            Tok::Ident(s) => cat3("identifier `", s.as_str(), "`"),
            Tok::IntLit(_) => "integer literal".to_owned(),
            Tok::FloatLit(_) => "float literal".to_owned(),
            Tok::StrLit(_) => "string literal".to_owned(),
            Tok::FStr(_) => "f-string".to_owned(),
            Tok::Key(k) => k.written().to_owned(),
        }
    }
}

/// The token of a word: a keyword where it is one, else an identifier.
pub open spec fn word_tok(w: Seq<char>) -> TokV {
    if w == "int"@ {
        TokV::Key(Key::TInt)
    } else if w == "float"@ {
        TokV::Key(Key::TFloat)
    } else if w == "bool"@ {
        TokV::Key(Key::TBool)
    } else if w == "str"@ {
        TokV::Key(Key::TStr)
    } else if w == "true"@ {
        TokV::Key(Key::True)
    } else if w == "false"@ {
        TokV::Key(Key::False)
    } else if w == "fn"@ {
        TokV::Key(Key::Fn)
    } else if w == "if"@ {
        TokV::Key(Key::If)
    } else if w == "else"@ {
        TokV::Key(Key::Else)
    } else if w == "while"@ {
        TokV::Key(Key::While)
    } else if w == "for"@ {
        TokV::Key(Key::For)
    } else if w == "in"@ {
        TokV::Key(Key::In)
    } else if w == "return"@ {
        TokV::Key(Key::Return)
    } else if w == "go"@ {
        TokV::Key(Key::Go)
    } else if w == "try"@ {
        TokV::Key(Key::Try)
    } else if w == "catch"@ {
        TokV::Key(Key::Catch)
    } else if w == "throw"@ {
        TokV::Key(Key::Throw)
    } else if w == "breakpoint"@ {
        TokV::Key(Key::Breakpoint)
    } else if w == "load"@ {
        TokV::Key(Key::Load)
    } else if w == "lazy"@ {
        TokV::Key(Key::Lazy)
    } else if w == "use"@ {
        TokV::Key(Key::Use)
    } else if w == "import"@ {
        TokV::Key(Key::Import)
    } else if w == "from"@ {
        TokV::Key(Key::From)
    } else if w == "alias"@ {
        TokV::Key(Key::Alias)
    } else if w == "as"@ {
        TokV::Key(Key::As)
    } else if w == "tmp"@ {
        TokV::Key(Key::Tmp)
    } else if w == "struct"@ {
        TokV::Key(Key::Struct)
    } else if w == "match"@ {
        TokV::Key(Key::Match)
    } else {
        TokV::Ident(w)
    }
}

fn make_word(w: String) -> (r: Tok)
    ensures
        r@ == word_tok(w@),
{
    let t = w.as_str();
    if eq(t, "int") {
        Tok::Key(Key::TInt)
    } else if eq(t, "float") {
        Tok::Key(Key::TFloat)
    } else if eq(t, "bool") {
        Tok::Key(Key::TBool)
    } else if eq(t, "str") {
        Tok::Key(Key::TStr)
    } else if eq(t, "true") {
        Tok::Key(Key::True)
    } else if eq(t, "false") {
        Tok::Key(Key::False)
    } else if eq(t, "fn") {
        Tok::Key(Key::Fn)
    } else if eq(t, "if") {
        Tok::Key(Key::If)
    } else if eq(t, "else") {
        Tok::Key(Key::Else)
    } else if eq(t, "while") {
        Tok::Key(Key::While)
    } else if eq(t, "for") {
        Tok::Key(Key::For)
    } else if eq(t, "in") {
        Tok::Key(Key::In)
    } else if eq(t, "return") {
        Tok::Key(Key::Return)
    } else if eq(t, "go") {
        Tok::Key(Key::Go)
    } else if eq(t, "try") {
        Tok::Key(Key::Try)
    } else if eq(t, "catch") {
        Tok::Key(Key::Catch)
    } else if eq(t, "throw") {
        Tok::Key(Key::Throw)
    } else if eq(t, "breakpoint") {
        Tok::Key(Key::Breakpoint)
    } else if eq(t, "load") {
        Tok::Key(Key::Load)
    } else if eq(t, "lazy") {
        Tok::Key(Key::Lazy)
    } else if eq(t, "use") {
        Tok::Key(Key::Use)
    } else if eq(t, "import") {
        Tok::Key(Key::Import)
    } else if eq(t, "from") {
        Tok::Key(Key::From)
    } else if eq(t, "alias") {
        Tok::Key(Key::Alias)
    } else if eq(t, "as") {
        Tok::Key(Key::As)
    } else if eq(t, "tmp") {
        Tok::Key(Key::Tmp)
    } else if eq(t, "struct") {
        Tok::Key(Key::Struct)
    } else if eq(t, "match") {
        Tok::Key(Key::Match)
    } else {
        Tok::Ident(w)
    }
}

/// The punctuation that starts with `c`, followed by `d` where there is a next
/// character: the token and how many characters it takes.
pub open spec fn punct(c: char, d: Option<char>) -> Option<(Key, int)> {
    if d == Some('=') && c == '=' {
        Some((Key::EqEq, 2))
    } else if d == Some('=') && c == '!' {
        Some((Key::NotEq, 2))
    } else if d == Some('=') && c == '<' {
        Some((Key::Le, 2))
    } else if d == Some('=') && c == '>' {
        Some((Key::Ge, 2))
    } else if d == Some('&') && c == '&' {
        Some((Key::AndAnd, 2))
    } else if d == Some('|') && c == '|' {
        Some((Key::OrOr, 2))
    } else if d == Some('>') && c == '|' {
        Some((Key::Pipe, 2))
    } else if d == Some('>') && c == '-' {
        Some((Key::Arrow, 2))
    } else if d == Some('>') && c == '=' {
        Some((Key::FatArrow, 2))
    } else if c == '@' {
        Some((Key::At, 1))
    } else if c == '(' {
        Some((Key::LParen, 1))
    } else if c == ')' {
        Some((Key::RParen, 1))
    } else if c == '{' {
        Some((Key::LBrace, 1))
    } else if c == '}' {
        Some((Key::RBrace, 1))
    } else if c == '[' {
        Some((Key::LBracket, 1))
    } else if c == ']' {
        Some((Key::RBracket, 1))
    } else if c == ',' {
        Some((Key::Comma, 1))
    } else if c == ':' {
        Some((Key::Colon, 1))
    } else if c == ';' {
        Some((Key::Semi, 1))
    } else if c == '.' {
        Some((Key::Dot, 1))
    } else if c == '=' {
        Some((Key::Assign, 1))
    } else if c == '+' {
        Some((Key::Plus, 1))
    } else if c == '-' {
        Some((Key::Minus, 1))
    } else if c == '*' {
        Some((Key::Star, 1))
    } else if c == '/' {
        Some((Key::Slash, 1))
    } else if c == '%' {
        Some((Key::Percent, 1))
    } else if c == '<' {
        Some((Key::Lt, 1))
    } else if c == '>' {
        Some((Key::Gt, 1))
    } else if c == '!' {
        Some((Key::Bang, 1))
    } else {
        None
    }
}

fn punct_at(c: char, d: Option<char>) -> (r: Option<(Key, usize)>)
    ensures
        match r {
            Some((k, n)) => punct(c, d) == Some((k, n as int)),
            None => punct(c, d) is None,
        },
{
    let (has, e): (bool, char) = match d {
        Some(e) => (true, e),
        None => (false, ' '),
    };
    if has && e == '=' && c == '=' {
        Some((Key::EqEq, 2))
    } else if has && e == '=' && c == '!' {
        Some((Key::NotEq, 2))
    } else if has && e == '=' && c == '<' {
        Some((Key::Le, 2))
    } else if has && e == '=' && c == '>' {
        Some((Key::Ge, 2))
    } else if has && e == '&' && c == '&' {
        Some((Key::AndAnd, 2))
    } else if has && e == '|' && c == '|' {
        Some((Key::OrOr, 2))
    } else if has && e == '>' && c == '|' {
        Some((Key::Pipe, 2))
    } else if has && e == '>' && c == '-' {
        Some((Key::Arrow, 2))
    } else if has && e == '>' && c == '=' {
        Some((Key::FatArrow, 2))
    } else if c == '@' {
        Some((Key::At, 1))
    } else if c == '(' {
        Some((Key::LParen, 1))
    } else if c == ')' {
        Some((Key::RParen, 1))
    } else if c == '{' {
        Some((Key::LBrace, 1))
    } else if c == '}' {
        Some((Key::RBrace, 1))
    } else if c == '[' {
        Some((Key::LBracket, 1))
    } else if c == ']' {
        Some((Key::RBracket, 1))
    } else if c == ',' {
        Some((Key::Comma, 1))
    } else if c == ':' {
        Some((Key::Colon, 1))
    } else if c == ';' {
        Some((Key::Semi, 1))
    } else if c == '.' {
        Some((Key::Dot, 1))
    } else if c == '=' {
        Some((Key::Assign, 1))
    } else if c == '+' {
        Some((Key::Plus, 1))
    } else if c == '-' {
        Some((Key::Minus, 1))
    } else if c == '*' {
        Some((Key::Star, 1))
    } else if c == '/' {
        Some((Key::Slash, 1))
    } else if c == '%' {
        Some((Key::Percent, 1))
    } else if c == '<' {
        Some((Key::Lt, 1))
    } else if c == '>' {
        Some((Key::Gt, 1))
    } else if c == '!' {
        Some((Key::Bang, 1))
    } else {
        None
    }
}

/// One more, as far as the type goes.
pub open spec fn inc(n: usize) -> usize {
    if n < usize::MAX {
        (n + 1) as usize
    } else {
        n
    }
}

fn up(n: usize) -> (r: usize)
    ensures
        r == inc(n),
{
    if n < usize::MAX {
        n + 1
    } else {
        n
    }
}

/// The line of position `i`: one more than the line feeds before it.
pub open spec fn line_of(s: Seq<char>, i: int) -> usize
    decreases i,
{
    if i <= 0 {
        1
    } else if s[i - 1] == '\n' {
        inc(line_of(s, i - 1))
    } else {
        line_of(s, i - 1)
    }
}

/// The column of position `i` in its line.
pub open spec fn col_of(s: Seq<char>, i: int) -> usize
    decreases i,
{
    if i <= 0 {
        1
    } else if s[i - 1] == '\n' {
        1
    } else {
        inc(col_of(s, i - 1))
    }
}

/// The place of the characters `i..e`.
pub open spec fn span_of(s: Seq<char>, i: int, e: int) -> Span {
    Span { line: line_of(s, i), col: col_of(s, i), len: (e - i) as usize }
}

/// What can be wrong in a text: the code, the message, where, how long, and advice.
pub struct LexErrV {
    pub code: Seq<char>,
    pub msg: Seq<char>,
    pub at: int,
    pub help: Seq<char>,
}

/// The error of an unclosed text literal that starts at `at`.
pub open spec fn unclosed(at: int) -> LexErrV {
    LexErrV {
        code: codes::UNTERMINATED_STRING@,
        msg: "unterminated string literal"@,
        at,
        help: "close the string with `\"`"@,
    }
}

/// The error of an escape that does not exist, at `at`.
pub open spec fn bad_escape(at: int) -> LexErrV {
    LexErrV {
        code: codes::SYNTAX@,
        msg: "unknown escape sequence"@,
        at,
        help: "supported escapes: `\\n`, `\\t`, `\\r`, `\\\\`, `\\\"`"@,
    }
}

/// Whether a character is blank.
pub open spec fn is_blank(c: char) -> bool {
    c == ' ' || c == '\t' || c == '\n' || c == '\r'
}

/// Whether a word can start with a character.
pub open spec fn is_word_start(c: char) -> bool {
    'a' <= c <= 'z' || 'A' <= c <= 'Z' || c == '_'
}

/// Whether a word can go on with a character.
pub open spec fn is_word(c: char) -> bool {
    is_word_start(c) || is_digit(c)
}

/// The end of the line that holds position `i`.
pub open spec fn line_end(s: Seq<char>, i: int) -> int
    decreases s.len() - i,
{
    if i < 0 || i >= s.len() || s[i] == '\n' {
        i
    } else {
        line_end(s, i + 1)
    }
}

/// The position after the next `*/`, if there is one.
pub open spec fn comment_end(s: Seq<char>, i: int) -> Option<int>
    decreases s.len() - i,
{
    if i < 0 || i + 1 >= s.len() {
        None
    } else if s[i] == '*' && s[i + 1] == '/' {
        Some(i + 2)
    } else {
        comment_end(s, i + 1)
    }
}

/// The end of the word that goes on at `i`.
pub open spec fn word_end(s: Seq<char>, i: int) -> int
    decreases s.len() - i,
{
    if i < 0 || i >= s.len() || !is_word(s[i]) {
        i
    } else {
        word_end(s, i + 1)
    }
}

/// The end of the row of digits that goes on at `i`.
pub open spec fn digits_end(s: Seq<char>, i: int) -> int
    decreases s.len() - i,
{
    if i < 0 || i >= s.len() || !is_digit(s[i]) {
        i
    } else {
        digits_end(s, i + 1)
    }
}

/// The character that an escape stands for.
pub open spec fn escape(c: char) -> Option<char> {
    if c == 'n' {
        Some('\n')
    } else if c == 't' {
        Some('\t')
    } else if c == 'r' {
        Some('\r')
    } else if c == '\\' {
        Some('\\')
    } else if c == '"' {
        Some('"')
    } else {
        None
    }
}

/// The rest of a text literal that started at `start`: what it holds after `acc`, and
/// the position after its closing quote.
pub open spec fn str_body(s: Seq<char>, start: int, i: int, acc: Seq<char>) -> Result<
    (Seq<char>, int),
    LexErrV,
>
    decreases s.len() - i,
{
    if i < 0 || i >= s.len() {
        Err(unclosed(start))
    } else if s[i] == '"' {
        Ok((acc, i + 1))
    } else if s[i] == '\\' {
        if i + 1 >= s.len() {
            Err(unclosed(start))
        } else {
            match escape(s[i + 1]) {
                Some(c) => str_body(s, start, i + 2, acc.push(c)),
                None => Err(bad_escape(i)),
            }
        }
    } else {
        str_body(s, start, i + 1, acc.push(s[i]))
    }
}

/// The position of the brace that closes the code at `i`, `depth` braces deep.
pub open spec fn code_end(s: Seq<char>, i: int, depth: nat) -> Option<int>
    decreases s.len() - i,
{
    if i < 0 || i >= s.len() {
        None
    } else if s[i] == '}' {
        if depth == 0 {
            Some(i)
        } else {
            code_end(s, i + 1, (depth - 1) as nat)
        }
    } else if s[i] == '{' {
        code_end(s, i + 1, depth + 1)
    } else {
        code_end(s, i + 1, depth)
    }
}

/// The pieces so far, with the literal text that was being collected.
pub open spec fn close_lit(parts: Seq<PartV>, lit: Seq<char>) -> Seq<PartV> {
    if lit.len() == 0 {
        parts
    } else {
        parts.push(PartV::Lit(lit))
    }
}

/// The rest of an interpolated text that started at `start`: its pieces, and the
/// position after its closing quote. Doubled braces stay as they are written.
pub open spec fn fstr_body(
    s: Seq<char>,
    start: int,
    i: int,
    parts: Seq<PartV>,
    lit: Seq<char>,
) -> Result<(Seq<PartV>, int), LexErrV>
    decreases s.len() - i,
{
    if i < 0 || i >= s.len() {
        Err(unclosed(start))
    } else if s[i] == '"' {
        Ok((close_lit(parts, lit), i + 1))
    } else if s[i] == '\\' {
        if i + 1 >= s.len() {
            Err(unclosed(start))
        } else {
            match escape(s[i + 1]) {
                Some(c) => fstr_body(s, start, i + 2, parts, lit.push(c)),
                None => Err(bad_escape(i)),
            }
        }
    } else if (s[i] == '{' || s[i] == '}') && i + 1 < s.len() && s[i + 1] == s[i] {
        fstr_body(s, start, i + 2, parts, lit.push(s[i]).push(s[i]))
    } else if s[i] == '{' {
        match code_end(s, i + 1, 0) {
            Some(e) => if i < e < s.len() {
                fstr_body(
                    s,
                    start,
                    e + 1,
                    close_lit(parts, lit).push(PartV::Code(s.subrange(i + 1, e))),
                    Seq::empty(),
                )
            } else {
                Err(unclosed(start))
            },
            None => Err(unclosed(start)),
        }
    } else {
        fstr_body(s, start, i + 1, parts, lit.push(s[i]))
    }
}

/// The token that starts at the non-blank position `i`, and its end.
pub open spec fn token_at(s: Seq<char>, i: int) -> Result<(TokV, int), LexErrV> {
    let c = s[i];
    let d = if i + 1 < s.len() { Some(s[i + 1]) } else { None };
    if c == '"' {
        match str_body(s, i, i + 1, Seq::empty()) {
            Ok((t, e)) => Ok((TokV::StrLit(t), e)),
            Err(x) => Err(x),
        }
    } else if c == 'f' && d == Some('"') {
        match fstr_body(s, i, i + 2, Seq::empty(), Seq::empty()) {
            Ok((ps, e)) => Ok((TokV::FStr(ps), e)),
            Err(x) => Err(x),
        }
    } else if is_word_start(c) {
        let e = word_end(s, i + 1);
        Ok((word_tok(s.subrange(i, e)), e))
    } else if is_digit(c) || (c == '.' && d is Some && is_digit(d->0)) {
        let e = digits_end(s, i);
        if e + 1 < s.len() && s[e] == '.' && is_digit(s[e + 1]) {
            let f = digits_end(s, e + 1);
            Ok((TokV::FloatLit(s.subrange(i, f)), f))
        } else {
            let n = nat_of(s.subrange(i, e));
            if n <= i64::MAX {
                Ok((TokV::IntLit(n as i64), e))
            } else {
                Err(
                    LexErrV {
                        code: codes::INTEGER_OVERFLOW@,
                        msg: "integer literal out of range"@,
                        at: i,
                        help: "integers are 64-bit signed; use a float for larger values"@,
                    },
                )
            }
        }
    } else {
        match punct(c, d) {
            Some((k, n)) => Ok((TokV::Key(k), i + n)),
            None => Err(
                LexErrV {
                    code: codes::ILLEGAL_CHAR@,
                    msg: "illegal character `"@ + seq![c] + "`"@,
                    at: i,
                    help: "remove or replace this character"@,
                },
            ),
        }
    }
}

/// The tokens of a text from position `i` on: blanks and comments are passed over, and
/// the end of the text is a token of its own.
pub open spec fn tokens(s: Seq<char>, i: int) -> Result<Seq<(TokV, Span)>, LexErrV>
    decreases s.len() - i,
{
    if i < 0 || i >= s.len() {
        Ok(seq![(TokV::Key(Key::Eof), span_of(s, i, i))])
    } else if is_blank(s[i]) {
        tokens(s, i + 1)
    } else if s[i] == '/' && i + 1 < s.len() && s[i + 1] == '/' {
        let e = line_end(s, i);
        if i < e <= s.len() {
            tokens(s, e)
        } else {
            Ok(Seq::empty())
        }
    } else if s[i] == '/' && i + 1 < s.len() && s[i + 1] == '*' {
        match comment_end(s, i + 2) {
            Some(e) => if i < e <= s.len() {
                tokens(s, e)
            } else {
                Ok(Seq::empty())
            },
            None => Err(
                LexErrV {
                    code: codes::UNTERMINATED_COMMENT@,
                    msg: "unterminated comment"@,
                    at: i,
                    help: "close the comment with `*/`"@,
                },
            ),
        }
    } else {
        match token_at(s, i) {
            Ok((t, e)) => if i < e <= s.len() {
                match tokens(s, e) {
                    Ok(rest) => Ok(seq![(t, span_of(s, i, e))] + rest),
                    Err(x) => Err(x),
                }
            } else {
                Ok(Seq::empty())
            },
            Err(x) => Err(x),
        }
    }
}

/// The report of what is wrong in a text.
pub open spec fn lex_report(file: Seq<char>, s: Seq<char>, e: LexErrV) -> ErrV {
    err_at(
        e.code,
        e.msg,
        file,
        s,
        line_of(s, e.at) as nat,
        col_of(s, e.at) as nat,
        1,
        Some(e.help),
    )
}

/// The tokens of a source text, or the error in it.
pub open spec fn tokenized(file: Seq<char>, s: Seq<char>) -> Result<Seq<(TokV, Span)>, ErrV> {
    match tokens(s, 0) {
        Ok(ts) => Ok(ts),
        Err(e) => Err(lex_report(file, s, e)),
    }
}

/// The scanner of one source text.
pub struct Lexer {
    file: String,
    src: String,
    s: Vec<char>,
}

struct LexErr {
    code: &'static str,
    msg: String,
    at: usize,
    help: &'static str,
}

impl LexErr {
    spec fn v(self) -> LexErrV {
        LexErrV { code: self.code@, msg: self.msg@, at: self.at as int, help: self.help@ }
    }
}

fn unclosed_err(at: usize) -> (r: LexErr)
    ensures
        r.v() == unclosed(at as int),
{
    LexErr {
        code: codes::UNTERMINATED_STRING,
        msg: "unterminated string literal".to_owned(),
        at,
        help: "close the string with `\"`",
    }
}

fn bad_escape_err(at: usize) -> (r: LexErr)
    ensures
        r.v() == bad_escape(at as int),
{
    LexErr {
        code: codes::SYNTAX,
        msg: "unknown escape sequence".to_owned(),
        at,
        help: "supported escapes: `\\n`, `\\t`, `\\r`, `\\\\`, `\\\"`",
    }
}

fn escaped(c: char) -> (r: Option<char>)
    ensures
        r == escape(c),
{
    if c == 'n' {
        Some('\n')
    } else if c == 't' {
        Some('\t')
    } else if c == 'r' {
        Some('\r')
    } else if c == '\\' {
        Some('\\')
    } else if c == '"' {
        Some('"')
    } else {
        None
    }
}

fn digit_here(c: char) -> (r: bool)
    ensures
        r == is_digit(c),
{
    '0' <= c && c <= '9'
}

fn word_start_here(c: char) -> (r: bool)
    ensures
        r == is_word_start(c),
{
    ('a' <= c && c <= 'z') || ('A' <= c && c <= 'Z') || c == '_'
}

/// Rows of digits hold digits.
proof fn lemma_digits_end(s: Seq<char>, i: int)
    requires
        0 <= i <= s.len(),
    ensures
        i <= digits_end(s, i) <= s.len(),
        all_digits(s.subrange(i, digits_end(s, i))),
    decreases s.len() - i,
{
    if i < s.len() && is_digit(s[i]) {
        lemma_digits_end(s, i + 1);
        let e = digits_end(s, i);
        assert forall|k: int| 0 <= k < e - i implies is_digit(#[trigger] s.subrange(i, e)[k]) by {
            if k > 0 {
                assert(s.subrange(i + 1, e)[k - 1] == s.subrange(i, e)[k]);
            }
        }
    }
}

impl Lexer {
    /// The name of the file.
    pub closed spec fn file_v(self) -> Seq<char> {
        self.file@
    }

    /// The source text.
    pub closed spec fn src_v(self) -> Seq<char> {
        self.src@
    }
}

/// Scans the rest of a text literal that starts at `start`.
fn scan_str(s: &Vec<char>, start: usize) -> (r: Result<(String, usize), LexErr>)
    requires
        start < s.len(),
    ensures
        match r {
            Ok((t, e)) => str_body(s@, start as int, start + 1, Seq::empty()) == Ok::<
                (Seq<char>, int),
                LexErrV,
            >((t@, e as int)) && start < e <= s.len(),
            Err(x) => str_body(s@, start as int, start + 1, Seq::empty()) == Err::<
                (Seq<char>, int),
                LexErrV,
            >(x.v()),
        },
{
    let ghost goal = str_body(s@, start as int, start + 1, Seq::empty());
    let mut acc = String::new();
    let mut i: usize = start + 1;
    while i < s.len()
        invariant
            start < i <= s.len(),
            str_body(s@, start as int, i as int, acc@) == goal,
            goal == str_body(s@, start as int, start + 1, Seq::empty()),
        decreases s.len() - i,
    {
        let c = s[i];
        if c == '"' {
            return Ok((acc, i + 1));
        }
        if c == '\\' {
            if i + 1 >= s.len() {
                return Err(unclosed_err(start));
            }
            match escaped(s[i + 1]) {
                Some(x) => {
                    acc.push(x);
                    i = i + 2;
                },
                None => {
                    return Err(bad_escape_err(i));
                },
            }
        } else {
            acc.push(c);
            i = i + 1;
        }
    }
    Err(unclosed_err(start))
}

/// Finds the brace that closes the code at `from`.
fn scan_code(s: &Vec<char>, from: usize) -> (r: Option<usize>)
    requires
        from <= s.len(),
    ensures
        match r {
            Some(e) => code_end(s@, from as int, 0) == Some(e as int) && from <= e < s.len(),
            None => code_end(s@, from as int, 0) is None,
        },
{
    let mut depth: usize = 0;
    let mut i: usize = from;
    while i < s.len()
        invariant
            from <= i <= s.len(),
            depth <= i - from,
            code_end(s@, i as int, depth as nat) == code_end(s@, from as int, 0),
        decreases s.len() - i,
    {
        let c = s[i];
        if c == '}' {
            if depth == 0 {
                return Some(i);
            }
            depth = depth - 1;
        } else if c == '{' {
            depth = depth + 1;
        }
        i = i + 1;
    }
    None
}

fn push_part(parts: &mut Vec<FStrPart>, p: FStrPart)
    ensures
        parts_v(final(parts)@) == parts_v(old(parts)@).push(p@),
{
    parts.push(p);
    assert(parts_v(parts@) =~= parts_v(old(parts)@).push(p@));
}

/// Scans the rest of an interpolated text that starts at `start`.
fn scan_fstr(s: &Vec<char>, start: usize) -> (r: Result<(Vec<FStrPart>, usize), LexErr>)
    requires
        start + 1 < s.len(),
    ensures
        match r {
            Ok((ps, e)) => fstr_body(s@, start as int, start + 2, Seq::empty(), Seq::empty()) == Ok::<
                (Seq<PartV>, int),
                LexErrV,
            >((parts_v(ps@), e as int)) && start < e <= s.len(),
            Err(x) => fstr_body(s@, start as int, start + 2, Seq::empty(), Seq::empty()) == Err::<
                (Seq<PartV>, int),
                LexErrV,
            >(x.v()),
        },
{
    let ghost goal = fstr_body(s@, start as int, start + 2, Seq::empty(), Seq::empty());
    let mut parts: Vec<FStrPart> = Vec::new();
    let mut lit = String::new();
    assert(parts_v(parts@) =~= Seq::empty());
    let mut i: usize = start + 2;
    while i < s.len()
        invariant
            start + 2 <= i <= s.len(),
            fstr_body(s@, start as int, i as int, parts_v(parts@), lit@) == goal,
            goal == fstr_body(s@, start as int, start + 2, Seq::empty(), Seq::empty()),
        decreases s.len() - i,
    {
        let c = s[i];
        if c == '"' {
            if !lit.as_str().is_empty() {
                push_part(&mut parts, FStrPart::Lit(lit));
            }
            return Ok((parts, i + 1));
        }
        if c == '\\' {
            if i + 1 >= s.len() {
                return Err(unclosed_err(start));
            }
            match escaped(s[i + 1]) {
                Some(x) => {
                    lit.push(x);
                    i = i + 2;
                },
                None => {
                    return Err(bad_escape_err(i));
                },
            }
        } else if (c == '{' || c == '}') && i + 1 < s.len() && s[i + 1] == c {
            lit.push(c);
            lit.push(c);
            i = i + 2;
        } else if c == '{' {
            match scan_code(s, i + 1) {
                Some(e) => {
                    if !lit.as_str().is_empty() {
                        push_part(&mut parts, FStrPart::Lit(lit));
                    }
                    push_part(&mut parts, FStrPart::Code(slice(s, i + 1, e)));
                    lit = String::new();
                    i = e + 1;
                },
                None => {
                    return Err(unclosed_err(start));
                },
            }
        } else {
            lit.push(c);
            i = i + 1;
        }
    }
    Err(unclosed_err(start))
}

fn scan_word(s: &Vec<char>, from: usize) -> (e: usize)
    requires
        from <= s.len(),
    ensures
        e == word_end(s@, from as int),
        from <= e <= s.len(),
{
    let mut i: usize = from;
    while i < s.len() && (word_start_here(s[i]) || digit_here(s[i]))
        invariant
            from <= i <= s.len(),
            word_end(s@, i as int) == word_end(s@, from as int),
        decreases s.len() - i,
    {
        i = i + 1;
    }
    i
}

fn scan_digits(s: &Vec<char>, from: usize) -> (e: usize)
    requires
        from <= s.len(),
    ensures
        e == digits_end(s@, from as int),
        from <= e <= s.len(),
{
    let mut i: usize = from;
    while i < s.len() && digit_here(s[i])
        invariant
            from <= i <= s.len(),
            digits_end(s@, i as int) == digits_end(s@, from as int),
        decreases s.len() - i,
    {
        i = i + 1;
    }
    i
}

/// Scans the token that starts at `i`.
fn scan_token(s: &Vec<char>, i: usize) -> (r: Result<(Tok, usize), LexErr>)
    requires
        i < s.len(),
    ensures
        match r {
            Ok((t, e)) => token_at(s@, i as int) == Ok::<(TokV, int), LexErrV>((t@, e as int)) && i
                < e <= s.len(),
            Err(x) => token_at(s@, i as int) == Err::<(TokV, int), LexErrV>(x.v()),
        },
{
    let c = s[i];
    let d: Option<char> = if i + 1 < s.len() {
        Some(s[i + 1])
    } else {
        None
    };
    let (quote_next, digit_next): (bool, bool) = match d {
        Some(x) => (x == '"', digit_here(x)),
        None => (false, false),
    };
    if c == '"' {
        match scan_str(s, i) {
            Ok((t, e)) => Ok((Tok::StrLit(t), e)),
            Err(x) => Err(x),
        }
    } else if c == 'f' && quote_next {
        match scan_fstr(s, i) {
            Ok((ps, e)) => Ok((Tok::FStr(ps), e)),
            Err(x) => Err(x),
        }
    } else if word_start_here(c) {
        let e: usize = scan_word(s, i + 1);
        Ok((make_word(slice(s, i, e)), e))
    } else if digit_here(c) || (c == '.' && digit_next) {
        let e: usize = scan_digits(s, i);
        proof {
            lemma_digits_end(s@, i as int);
            if is_digit(c) {
                lemma_digits_end(s@, i + 1);
            }
        }
        if e < s.len() && s.len() - e > 1 && s[e] == '.' && digit_here(s[e + 1]) {
            let f: usize = scan_digits(s, e + 1);
            proof {
                lemma_digits_end(s@, e + 2);
            }
            Ok((Tok::FloatLit(slice(s, i, f)), f))
        } else {
            match parse_nat(s, i, e) {
                Some(n) if n <= 9223372036854775807 => Ok((Tok::IntLit(n as i64), e)),
                _ => Err(
                    LexErr {
                        code: codes::INTEGER_OVERFLOW,
                        msg: "integer literal out of range".to_owned(),
                        at: i,
                        help: "integers are 64-bit signed; use a float for larger values",
                    },
                ),
            }
        }
    } else {
        match punct_at(c, d) {
            Some((k, n)) => Ok((Tok::Key(k), i + n)),
            None => {
                let mut one = String::new();
                one.push(c);
                assert(one@ =~= seq![c]);
                Err(
                    LexErr {
                        code: codes::ILLEGAL_CHAR,
                        msg: cat3("illegal character `", one.as_str(), "`"),
                        at: i,
                        help: "remove or replace this character",
                    },
                )
            },
        }
    }
}

/// Walks from position `i` to `e`, counting lines and columns.
fn advance(s: &Vec<char>, i: usize, e: usize, line: usize, col: usize) -> (r: (usize, usize))
    requires
        i <= e <= s.len(),
        line == line_of(s@, i as int),
        col == col_of(s@, i as int),
    ensures
        r.0 == line_of(s@, e as int),
        r.1 == col_of(s@, e as int),
{
    let mut line: usize = line;
    let mut col: usize = col;
    let mut k: usize = i;
    while k < e
        invariant
            i <= k <= e <= s.len(),
            line == line_of(s@, k as int),
            col == col_of(s@, k as int),
        decreases e - k,
    {
        if s[k] == '\n' {
            line = up(line);
            col = 1;
        } else {
            col = up(col);
        }
        k = k + 1;
    }
    (line, col)
}

/// Finds the end of a line comment.
fn scan_line(s: &Vec<char>, from: usize) -> (e: usize)
    requires
        from <= s.len(),
    ensures
        e == line_end(s@, from as int),
        from <= e <= s.len(),
{
    let mut i: usize = from;
    while i < s.len() && s[i] != '\n'
        invariant
            from <= i <= s.len(),
            line_end(s@, i as int) == line_end(s@, from as int),
        decreases s.len() - i,
    {
        i = i + 1;
    }
    i
}

/// Finds the end of a block comment.
fn scan_comment(s: &Vec<char>, from: usize) -> (r: Option<usize>)
    requires
        from <= s.len(),
    ensures
        match r {
            Some(e) => comment_end(s@, from as int) == Some(e as int) && from < e <= s.len(),
            None => comment_end(s@, from as int) is None,
        },
{
    let mut i: usize = from;
    while i < s.len() && s.len() - i > 1
        invariant
            from <= i <= s.len(),
            comment_end(s@, i as int) == comment_end(s@, from as int),
        decreases s.len() - i,
    {
        if s[i] == '*' && s[i + 1] == '/' {
            return Some(i + 2);
        }
        i = i + 1;
    }
    None
}

/// What `tokens` gives from `i` on, behind the tokens `done`.
spec fn behind(done: Seq<(TokV, Span)>, rest: Result<Seq<(TokV, Span)>, LexErrV>) -> Result<
    Seq<(TokV, Span)>,
    LexErrV,
> {
    match rest {
        Ok(ts) => Ok(done + ts),
        Err(e) => Err(e),
    }
}

impl Lexer {
    /// Whether the scanner holds its text.
    pub closed spec fn wf(self) -> bool {
        self.s@ == self.src@
    }

    /// A scanner of the text `src` of the file `file`.
    pub fn new(file: &str, src: &str) -> (r: Lexer)
        ensures
            r.wf(),
            r.file_v() == file@,
            r.src_v() == src@,
    {
        Lexer { file: file.to_owned(), src: src.to_owned(), s: chars(src) }
    }

    fn fail(&self, e: &LexErr, line: usize, col: usize) -> (r: ZError)
        requires
            line == line_of(self.src@, e.at as int),
            col == col_of(self.src@, e.at as int),
        ensures
            r@ == lex_report(self.file@, self.src@, e.v()),
    {
        ZError::new(
            e.code,
            e.msg.as_str(),
            self.file.as_str(),
            self.src.as_str(),
            line,
            col,
            1,
            Some(e.help),
        )
    }

    /// The tokens of the text; the last one, and only a last one is owed, is the end of
    /// the text.
    pub fn tokenize(&self) -> (r: Result<Vec<(Tok, Span)>, ZError>)
        requires
            self.wf(),
        ensures
            match r {
                Ok(ts) => tokenized(self.file_v(), self.src_v()) == Ok::<Seq<(TokV, Span)>, ErrV>(
                    toks_v(ts@),
                ),
                Err(e) => tokenized(self.file_v(), self.src_v()) == Err::<Seq<(TokV, Span)>, ErrV>(e@),
            },
    {
        let s = &self.s;
        let ghost goal = tokens(s@, 0);
        let mut out: Vec<(Tok, Span)> = Vec::new();
        let mut i: usize = 0;
        let mut line: usize = 1;
        let mut col: usize = 1;
        proof {
            assert(toks_v(out@) =~= Seq::empty());
            match goal {
                Ok(ts) => {
                    assert(Seq::empty() + ts =~= ts);
                },
                Err(_) => {},
            }
        }
        while i < s.len()
            invariant
                self.wf(),
                s@ == self.src@,
                i <= s.len(),
                line == line_of(s@, i as int),
                col == col_of(s@, i as int),
                behind(toks_v(out@), tokens(s@, i as int)) == goal,
                goal == tokens(s@, 0),
            decreases s.len() - i,
        {
            let c = s[i];
            let mut e: usize = i + 1;
            if c == ' ' || c == '\t' || c == '\n' || c == '\r' {
            } else if c == '/' && i + 1 < s.len() && s[i + 1] == '/' {
                e = scan_line(s, i);
                assert(line_end(s@, i as int) == line_end(s@, i + 1));
                assert(line_end(s@, i + 1) == line_end(s@, i + 2));
                proof {
                    lemma_line_end(s@, i + 2);
                }
            } else if c == '/' && i + 1 < s.len() && s[i + 1] == '*' {
                match scan_comment(s, i + 2) {
                    Some(x) => {
                        e = x;
                    },
                    None => {
                        let err = LexErr {
                            code: codes::UNTERMINATED_COMMENT,
                            msg: "unterminated comment".to_owned(),
                            at: i,
                            help: "close the comment with `*/`",
                        };
                        return Err(self.fail(&err, line, col));
                    },
                }
            } else {
                match scan_token(s, i) {
                    Ok((t, x)) => {
                        let span = Span { line, col, len: x - i };
                        let ghost before = toks_v(out@);
                        let ghost tv = t@;
                        out.push((t, span));
                        e = x;
                        proof {
                            assert(toks_v(out@) =~= before.push((tv, span)));
                            match tokens(s@, e as int) {
                                Ok(rest) => {
                                    assert(before.push((tv, span)) + rest =~= before + (seq![
                                        (tv, span),
                                    ] + rest));
                                },
                                Err(_) => {},
                            }
                        }
                    },
                    Err(x) => {
                        proof {
                            lemma_err_at(s@, i as int);
                        }
                        let (l, k) = advance(s, i, x.at, line, col);
                        return Err(self.fail(&x, l, k));
                    },
                }
            }
            let (l, k) = advance(s, i, e, line, col);
            line = l;
            col = k;
            i = e;
        }
        let span = Span { line, col, len: 0 };
        let ghost before = toks_v(out@);
        out.push((Tok::Key(Key::Eof), span));
        proof {
            assert(toks_v(out@) =~= before + seq![(TokV::Key(Key::Eof), span)]);
        }
        Ok(out)
    }
}

/// A line ends at or after the position it is looked for from.
proof fn lemma_line_end(s: Seq<char>, i: int)
    requires
        0 <= i <= s.len(),
    ensures
        i <= line_end(s, i) <= s.len(),
    decreases s.len() - i,
{
    if i < s.len() && s[i] != '\n' {
        lemma_line_end(s, i + 1);
    }
}

proof fn lemma_str_err(s: Seq<char>, start: int, i: int, acc: Seq<char>)
    requires
        0 <= start < i <= s.len(),
    ensures
        str_body(s, start, i, acc) matches Err(x) ==> start <= x.at < s.len(),
    decreases s.len() - i,
{
    if i < s.len() && s[i] != '"' {
        if s[i] == '\\' {
            if i + 1 < s.len() && escape(s[i + 1]) is Some {
                lemma_str_err(s, start, i + 2, acc.push(escape(s[i + 1])->0));
            }
        } else {
            lemma_str_err(s, start, i + 1, acc.push(s[i]));
        }
    }
}

proof fn lemma_fstr_err(s: Seq<char>, start: int, i: int, parts: Seq<PartV>, lit: Seq<char>)
    requires
        0 <= start < i <= s.len(),
    ensures
        fstr_body(s, start, i, parts, lit) matches Err(x) ==> start <= x.at < s.len(),
    decreases s.len() - i,
{
    if i < s.len() && s[i] != '"' {
        if s[i] == '\\' {
            if i + 1 < s.len() && escape(s[i + 1]) is Some {
                lemma_fstr_err(s, start, i + 2, parts, lit.push(escape(s[i + 1])->0));
            }
        } else if (s[i] == '{' || s[i] == '}') && i + 1 < s.len() && s[i + 1] == s[i] {
            lemma_fstr_err(s, start, i + 2, parts, lit.push(s[i]).push(s[i]));
        } else if s[i] == '{' {
            match code_end(s, i + 1, 0) {
                Some(e) => {
                    if i < e < s.len() {
                        lemma_fstr_err(
                            s,
                            start,
                            e + 1,
                            close_lit(parts, lit).push(PartV::Code(s.subrange(i + 1, e))),
                            Seq::empty(),
                        );
                    }
                },
                None => {},
            }
        } else {
            lemma_fstr_err(s, start, i + 1, parts, lit.push(s[i]));
        }
    }
}

/// What is wrong with a token lies in the text, at or after the start of the token.
proof fn lemma_err_at(s: Seq<char>, i: int)
    requires
        0 <= i < s.len(),
    ensures
        token_at(s, i) matches Err(x) ==> i <= x.at < s.len(),
{
    lemma_str_err(s, i, i + 1, Seq::empty());
    if i + 2 <= s.len() {
        lemma_fstr_err(s, i, i + 2, Seq::empty(), Seq::empty());
    }
}

/// The tokens of a text end with the end of the text.
pub proof fn lemma_tokens_end(s: Seq<char>, i: int)
    requires
        0 <= i <= s.len(),
    ensures
        tokens(s, i) matches Ok(ts) ==> ts.len() > 0 && ts.last().0 == TokV::Key(Key::Eof),
    decreases s.len() - i,
{
    if i < s.len() {
        if is_blank(s[i]) {
            lemma_tokens_end(s, i + 1);
        } else if s[i] == '/' && i + 1 < s.len() && s[i + 1] == '/' {
            lemma_line_end(s, i + 2);
            assert(line_end(s, i) == line_end(s, i + 1));
            assert(line_end(s, i + 1) == line_end(s, i + 2));
            lemma_tokens_end(s, line_end(s, i));
        } else if s[i] == '/' && i + 1 < s.len() && s[i + 1] == '*' {
            lemma_comment_end(s, i + 2);
            match comment_end(s, i + 2) {
                Some(e) => {
                    lemma_tokens_end(s, e);
                },
                None => {},
            }
        } else {
            lemma_token_end(s, i);
            match token_at(s, i) {
                Ok((t, e)) => {
                    lemma_tokens_end(s, e);
                    match tokens(s, e) {
                        Ok(rest) => {
                            assert((seq![(t, span_of(s, i, e))] + rest).last() == rest.last());
                        },
                        Err(_) => {},
                    }
                },
                Err(_) => {},
            }
        }
    }
}

/// Whether a place is one of characters of a text.
pub open spec fn in_text(s: Seq<char>, p: Span) -> bool {
    exists|a: int, e: int| 0 <= a <= e <= s.len() && p == #[trigger] span_of(s, a, e)
}

/// The places of all tokens lie in the text, and so does the place of an error in it.
pub proof fn law_places_lie_in_the_text(s: Seq<char>, i: int)
    requires
        0 <= i <= s.len(),
    ensures
        tokens(s, i) matches Ok(ts) ==> forall|k: int| 0 <= k < ts.len() ==> in_text(s, (#[trigger] ts[k]).1),
        tokens(s, i) matches Err(x) ==> 0 <= x.at < s.len(),
    decreases s.len() - i,
{
    if i == s.len() {
        assert(in_text(s, span_of(s, i, i)));
    } else if is_blank(s[i]) {
        law_places_lie_in_the_text(s, i + 1);
    } else if s[i] == '/' && i + 1 < s.len() && s[i + 1] == '/' {
        let e = line_end(s, i);
        if i < e <= s.len() {
            law_places_lie_in_the_text(s, e);
        }
    } else if s[i] == '/' && i + 1 < s.len() && s[i + 1] == '*' {
        if let Some(e) = comment_end(s, i + 2) {
            if i < e <= s.len() {
                law_places_lie_in_the_text(s, e);
            }
        }
    } else {
        lemma_err_at(s, i);
        if let Ok((_, e)) = token_at(s, i) {
            if i < e <= s.len() {
                law_places_lie_in_the_text(s, e);
                assert(in_text(s, span_of(s, i, e)));
            }
        }
    }
}

/// Lines count from one, and none lies behind the last line of the text.
pub proof fn law_lines_are_lines_of_the_text(s: Seq<char>, a: int, b: int)
    requires
        0 <= a <= b <= s.len(),
    ensures
        1 <= line_of(s, a) <= line_of(s, b),
        1 <= col_of(s, a),
    decreases b, a,
{
    if a < b {
        law_lines_are_lines_of_the_text(s, a, b - 1);
    } else if b > 0 {
        law_lines_are_lines_of_the_text(s, b - 1, b - 1);
    }
}

proof fn lemma_comment_end(s: Seq<char>, i: int)
    requires
        0 <= i <= s.len(),
    ensures
        comment_end(s, i) matches Some(e) ==> i < e <= s.len(),
    decreases s.len() - i,
{
    if i + 1 < s.len() && !(s[i] == '*' && s[i + 1] == '/') {
        lemma_comment_end(s, i + 1);
    }
}

proof fn lemma_word_end(s: Seq<char>, i: int)
    requires
        0 <= i <= s.len(),
    ensures
        i <= word_end(s, i) <= s.len(),
    decreases s.len() - i,
{
    if i < s.len() && is_word(s[i]) {
        lemma_word_end(s, i + 1);
    }
}

proof fn lemma_str_end(s: Seq<char>, start: int, i: int, acc: Seq<char>)
    requires
        0 <= i <= s.len(),
    ensures
        str_body(s, start, i, acc) matches Ok((_, e)) ==> i < e <= s.len(),
    decreases s.len() - i,
{
    if i < s.len() && s[i] != '"' {
        if s[i] == '\\' {
            if i + 1 < s.len() && escape(s[i + 1]) is Some {
                lemma_str_end(s, start, i + 2, acc.push(escape(s[i + 1])->0));
            }
        } else {
            lemma_str_end(s, start, i + 1, acc.push(s[i]));
        }
    }
}

proof fn lemma_fstr_end(s: Seq<char>, start: int, i: int, parts: Seq<PartV>, lit: Seq<char>)
    requires
        0 <= i <= s.len(),
    ensures
        fstr_body(s, start, i, parts, lit) matches Ok((_, e)) ==> i < e <= s.len(),
    decreases s.len() - i,
{
    if i < s.len() && s[i] != '"' {
        if s[i] == '\\' {
            if i + 1 < s.len() && escape(s[i + 1]) is Some {
                lemma_fstr_end(s, start, i + 2, parts, lit.push(escape(s[i + 1])->0));
            }
        } else if (s[i] == '{' || s[i] == '}') && i + 1 < s.len() && s[i + 1] == s[i] {
            lemma_fstr_end(s, start, i + 2, parts, lit.push(s[i]).push(s[i]));
        } else if s[i] == '{' {
            match code_end(s, i + 1, 0) {
                Some(e) => {
                    if i < e < s.len() {
                        lemma_fstr_end(
                            s,
                            start,
                            e + 1,
                            close_lit(parts, lit).push(PartV::Code(s.subrange(i + 1, e))),
                            Seq::empty(),
                        );
                    }
                },
                None => {},
            }
        } else {
            lemma_fstr_end(s, start, i + 1, parts, lit.push(s[i]));
        }
    }
}

/// A token takes at least one character and stays within the text.
proof fn lemma_token_end(s: Seq<char>, i: int)
    requires
        0 <= i < s.len(),
    ensures
        token_at(s, i) matches Ok((_, e)) ==> i < e <= s.len(),
{
    lemma_str_end(s, i, i + 1, Seq::empty());
    lemma_word_end(s, i + 1);
    lemma_digits_end(s, i);
    let e = digits_end(s, i);
    if e + 1 <= s.len() {
        lemma_digits_end(s, e + 1);
    }
    if i + 2 <= s.len() {
        lemma_fstr_end(s, i, i + 2, Seq::empty(), Seq::empty());
    }
}

/// Whether the pieces of code in an interpolated text are shorter than `n`.
pub open spec fn codes_short(parts: Seq<PartV>, n: nat) -> bool {
    forall|j: int|
        0 <= j < parts.len() ==> ((#[trigger] parts[j]) matches PartV::Code(c) ==> c.len() < n)
}

/// Whether the pieces of code in a row of tokens are shorter than `n`.
pub open spec fn all_short(ts: Seq<(TokV, Span)>, n: nat) -> bool {
    forall|i: int|
        0 <= i < ts.len() ==> ((#[trigger] ts[i]).0 matches TokV::FStr(ps) ==> codes_short(ps, n))
}

proof fn lemma_fstr_short(s: Seq<char>, start: int, i: int, parts: Seq<PartV>, lit: Seq<char>)
    requires
        0 <= i <= s.len(),
        codes_short(parts, s.len()),
    ensures
        fstr_body(s, start, i, parts, lit) matches Ok((ps, _)) ==> codes_short(ps, s.len()),
    decreases s.len() - i,
{
    if i < s.len() && s[i] != '"' {
        if s[i] == '\\' {
            if i + 1 < s.len() && escape(s[i + 1]) is Some {
                lemma_fstr_short(s, start, i + 2, parts, lit.push(escape(s[i + 1])->0));
            }
        } else if (s[i] == '{' || s[i] == '}') && i + 1 < s.len() && s[i + 1] == s[i] {
            lemma_fstr_short(s, start, i + 2, parts, lit.push(s[i]).push(s[i]));
        } else if s[i] == '{' {
            match code_end(s, i + 1, 0) {
                Some(e) => {
                    if i < e < s.len() {
                        lemma_fstr_short(
                            s,
                            start,
                            e + 1,
                            close_lit(parts, lit).push(PartV::Code(s.subrange(i + 1, e))),
                            Seq::empty(),
                        );
                    }
                },
                None => {},
            }
        } else {
            lemma_fstr_short(s, start, i + 1, parts, lit.push(s[i]));
        }
    }
}

/// The pieces of code in the tokens of a text are shorter than the text.
pub proof fn lemma_tokens_short(s: Seq<char>, i: int)
    requires
        0 <= i <= s.len(),
    ensures
        tokens(s, i) matches Ok(ts) ==> all_short(ts, s.len()),
    decreases s.len() - i,
{
    if i < s.len() {
        if is_blank(s[i]) {
            lemma_tokens_short(s, i + 1);
        } else if s[i] == '/' && i + 1 < s.len() && s[i + 1] == '/' {
            let e = line_end(s, i);
            if i < e <= s.len() {
                lemma_tokens_short(s, e);
            }
        } else if s[i] == '/' && i + 1 < s.len() && s[i + 1] == '*' {
            match comment_end(s, i + 2) {
                Some(e) => {
                    if i < e <= s.len() {
                        lemma_tokens_short(s, e);
                    }
                },
                None => {},
            }
        } else {
            match token_at(s, i) {
                Ok((t, e)) => {
                    if i < e <= s.len() {
                        lemma_tokens_short(s, e);
                        if i + 2 <= s.len() {
                            lemma_fstr_short(s, i, i + 2, Seq::empty(), Seq::empty());
                        }
                    }
                },
                Err(_) => {},
            }
        }
    }
}

} // verus!
