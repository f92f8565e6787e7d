//! That tokens are read from the texts that spell them.

use vstd::prelude::*;

use super::{
    code_end, comment_end, digits_end, fstr_body, is_blank, is_word, is_word_start, line_end, span_of, str_body, token_at,
    tokens, word_end, word_tok, Key, LexErrV, PartV, Span, TokV,
};
use crate::error::codes;
use crate::text::{all_digits, dec, is_digit, nat_of};

verus! {

/// The word that a token is; nothing for the others.
pub open spec fn key_word(k: Key) -> Option<Seq<char>> {
    match k {
        Key::TInt => Some("int"@),
        Key::TFloat => Some("float"@),
        Key::TBool => Some("bool"@),
        Key::TStr => Some("str"@),
        Key::True => Some("true"@),
        Key::False => Some("false"@),
        Key::Fn => Some("fn"@),
        Key::If => Some("if"@),
        Key::Else => Some("else"@),
        Key::While => Some("while"@),
        Key::For => Some("for"@),
        Key::In => Some("in"@),
        Key::Return => Some("return"@),
        Key::Go => Some("go"@),
        Key::Try => Some("try"@),
        Key::Catch => Some("catch"@),
        Key::Throw => Some("throw"@),
        Key::Breakpoint => Some("breakpoint"@),
        Key::Load => Some("load"@),
        Key::Lazy => Some("lazy"@),
        Key::Use => Some("use"@),
        Key::Import => Some("import"@),
        Key::From => Some("from"@),
        Key::Alias => Some("alias"@),
        Key::As => Some("as"@),
        Key::Tmp => Some("tmp"@),
        Key::Struct => Some("struct"@),
        Key::Match => Some("match"@),
        _ => None,
    }
}

/// The one or two characters that a token is; none for words and the end.
pub open spec fn key_sign(k: Key) -> Seq<char> {
    match k {
        Key::At => seq!['@'],
        Key::LParen => seq!['('],
        Key::RParen => seq![')'],
        Key::LBrace => seq!['{'],
        Key::RBrace => seq!['}'],
        Key::LBracket => seq!['['],
        Key::RBracket => seq![']'],
        Key::Comma => seq![','],
        Key::Colon => seq![':'],
        Key::Semi => seq![';'],
        Key::Dot => seq!['.'],
        Key::Arrow => seq!['-', '>'],
        Key::FatArrow => seq!['=', '>'],
        Key::Assign => seq!['='],
        Key::Plus => seq!['+'],
        Key::Minus => seq!['-'],
        Key::Star => seq!['*'],
        Key::Slash => seq!['/'],
        Key::Percent => seq!['%'],
        Key::EqEq => seq!['=', '='],
        Key::NotEq => seq!['!', '='],
        Key::Lt => seq!['<'],
        Key::Le => seq!['<', '='],
        Key::Gt => seq!['>'],
        Key::Ge => seq!['>', '='],
        Key::AndAnd => seq!['&', '&'],
        Key::OrOr => seq!['|', '|'],
        Key::Bang => seq!['!'],
        Key::Pipe => seq!['|', '>'],
        _ => Seq::empty(),
    }
}

/// Whether a text is made of letters, digits and underscores, a digit not first.
pub open spec fn wordlike(w: Seq<char>) -> bool {
    &&& w.len() > 0
    &&& is_word_start(w[0])
    &&& forall|j: int| 0 <= j < w.len() ==> is_word(#[trigger] w[j])
}

/// How a character is written inside quotes.
pub open spec fn quoted_char(c: char) -> Seq<char> {
    if c == '"' {
        seq!['\\', '"']
    } else if c == '\\' {
        seq!['\\', '\\']
    } else if c == '\n' {
        seq!['\\', 'n']
    } else if c == '\t' {
        seq!['\\', 't']
    } else if c == '\r' {
        seq!['\\', 'r']
    } else {
        seq![c]
    }
}

/// How a text is written inside quotes.
pub open spec fn quoted(t: Seq<char>) -> Seq<char>
    decreases t.len(),
{
    if t.len() == 0 {
        Seq::empty()
    } else {
        quoted_char(t[0]) + quoted(t.skip(1))
    }
}

/// The text that spells a token.
pub open spec fn spelling(t: TokV) -> Seq<char> {
    match t {
        TokV::Key(k) => match key_word(k) {
            Some(w) => w,
            None => key_sign(k),
        },
        TokV::Ident(w) => w,
        TokV::IntLit(n) => dec(n as nat),
        TokV::FloatLit(t) => t,
        TokV::StrLit(t) => seq!['"'] + quoted(t) + seq!['"'],
        TokV::FStr(_) => Seq::empty(),
    }
}

/// Whether a token can be spelled by itself: an interpolated text and the end cannot, a name is no
/// word of the language, and a number is not negative.
pub open spec fn spellable(t: TokV) -> bool {
    match t {
        TokV::Key(k) => k != Key::Eof,
        TokV::Ident(w) => wordlike(w) && forall|k: Key| #[trigger] key_word(k) != Some(w),
        TokV::IntLit(n) => n >= 0,
        TokV::FloatLit(t) => exists|a: Seq<char>, b: Seq<char>|
            a.len() > 0 && b.len() > 0 && all_digits(a) && all_digits(b) && t == #[trigger] (a + seq!['.'] + b),
        TokV::StrLit(_) => true,
        TokV::FStr(_) => false,
    }
}

/// Tokens, each spelled and followed by a space.
pub open spec fn spelled(ts: Seq<TokV>) -> Seq<char>
    decreases ts.len(),
{
    if ts.len() == 0 {
        Seq::empty()
    } else {
        spelling(ts[0]) + seq![' '] + spelled(ts.skip(1))
    }
}

/// Tokens with the places where they stand, the first at `i`, and the end behind them.
pub open spec fn placed(s: Seq<char>, i: int, ts: Seq<TokV>) -> Seq<(TokV, Span)>
    decreases ts.len(),
{
    if ts.len() == 0 {
        seq![(TokV::Key(Key::Eof), span_of(s, i, i))]
    } else {
        let e = i + spelling(ts[0]).len();
        seq![(ts[0], span_of(s, i, e))] + placed(s, e + 1, ts.skip(1))
    }
}

proof fn lemma_word_end(s: Seq<char>, i: int, e: int)
    requires
        0 <= i <= e < s.len(),
        forall|j: int| i <= j < e ==> is_word(#[trigger] s[j]),
        !is_word(s[e]),
    ensures
        word_end(s, i) == e,
    decreases e - i,
{
    if i < e {
        lemma_word_end(s, i + 1, e);
    }
}

proof fn lemma_digits_end(s: Seq<char>, i: int, e: int)
    requires
        0 <= i <= e < s.len(),
        forall|j: int| i <= j < e ==> is_digit(#[trigger] s[j]),
        !is_digit(s[e]),
    ensures
        digits_end(s, i) == e,
    decreases e - i,
{
    if i < e {
        lemma_digits_end(s, i + 1, e);
    }
}

proof fn lemma_reveal_short()
    ensures
        "fn"@ == seq!['f', 'n'],
        "if"@ == seq!['i', 'f'],
        "in"@ == seq!['i', 'n'],
        "go"@ == seq!['g', 'o'],
        "as"@ == seq!['a', 's'],
        "int"@ == seq!['i', 'n', 't'],
        "str"@ == seq!['s', 't', 'r'],
        "for"@ == seq!['f', 'o', 'r'],
        "try"@ == seq!['t', 'r', 'y'],
        "use"@ == seq!['u', 's', 'e'],
        "tmp"@ == seq!['t', 'm', 'p'],
{
    reveal_strlit("fn");
    reveal_strlit("if");
    reveal_strlit("in");
    reveal_strlit("go");
    reveal_strlit("as");
    reveal_strlit("int");
    reveal_strlit("str");
    reveal_strlit("for");
    reveal_strlit("try");
    reveal_strlit("use");
    reveal_strlit("tmp");
    assert("fn"@ =~= seq!['f', 'n']);
    assert("if"@ =~= seq!['i', 'f']);
    assert("in"@ =~= seq!['i', 'n']);
    assert("go"@ =~= seq!['g', 'o']);
    assert("as"@ =~= seq!['a', 's']);
    assert("int"@ =~= seq!['i', 'n', 't']);
    assert("str"@ =~= seq!['s', 't', 'r']);
    assert("for"@ =~= seq!['f', 'o', 'r']);
    assert("try"@ =~= seq!['t', 'r', 'y']);
    assert("use"@ =~= seq!['u', 's', 'e']);
    assert("tmp"@ =~= seq!['t', 'm', 'p']);
}

proof fn lemma_reveal_four()
    ensures
        "bool"@ == seq!['b', 'o', 'o', 'l'],
        "true"@ == seq!['t', 'r', 'u', 'e'],
        "else"@ == seq!['e', 'l', 's', 'e'],
        "load"@ == seq!['l', 'o', 'a', 'd'],
        "lazy"@ == seq!['l', 'a', 'z', 'y'],
        "from"@ == seq!['f', 'r', 'o', 'm'],
{
    reveal_strlit("bool");
    reveal_strlit("true");
    reveal_strlit("else");
    reveal_strlit("load");
    reveal_strlit("lazy");
    reveal_strlit("from");
    assert("bool"@ =~= seq!['b', 'o', 'o', 'l']);
    assert("true"@ =~= seq!['t', 'r', 'u', 'e']);
    assert("else"@ =~= seq!['e', 'l', 's', 'e']);
    assert("load"@ =~= seq!['l', 'o', 'a', 'd']);
    assert("lazy"@ =~= seq!['l', 'a', 'z', 'y']);
    assert("from"@ =~= seq!['f', 'r', 'o', 'm']);
}

proof fn lemma_reveal_long()
    ensures
        "float"@ == seq!['f', 'l', 'o', 'a', 't'],
        "false"@ == seq!['f', 'a', 'l', 's', 'e'],
        "while"@ == seq!['w', 'h', 'i', 'l', 'e'],
        "catch"@ == seq!['c', 'a', 't', 'c', 'h'],
        "throw"@ == seq!['t', 'h', 'r', 'o', 'w'],
        "alias"@ == seq!['a', 'l', 'i', 'a', 's'],
        "match"@ == seq!['m', 'a', 't', 'c', 'h'],
        "return"@ == seq!['r', 'e', 't', 'u', 'r', 'n'],
        "import"@ == seq!['i', 'm', 'p', 'o', 'r', 't'],
        "struct"@ == seq!['s', 't', 'r', 'u', 'c', 't'],
        "breakpoint"@ == seq!['b', 'r', 'e', 'a', 'k', 'p', 'o', 'i', 'n', 't'],
{
    reveal_strlit("float");
    reveal_strlit("false");
    reveal_strlit("while");
    reveal_strlit("catch");
    reveal_strlit("throw");
    reveal_strlit("alias");
    reveal_strlit("match");
    reveal_strlit("return");
    reveal_strlit("import");
    reveal_strlit("struct");
    reveal_strlit("breakpoint");
    assert("float"@ =~= seq!['f', 'l', 'o', 'a', 't']);
    assert("false"@ =~= seq!['f', 'a', 'l', 's', 'e']);
    assert("while"@ =~= seq!['w', 'h', 'i', 'l', 'e']);
    assert("catch"@ =~= seq!['c', 'a', 't', 'c', 'h']);
    assert("throw"@ =~= seq!['t', 'h', 'r', 'o', 'w']);
    assert("alias"@ =~= seq!['a', 'l', 'i', 'a', 's']);
    assert("match"@ =~= seq!['m', 'a', 't', 'c', 'h']);
    assert("return"@ =~= seq!['r', 'e', 't', 'u', 'r', 'n']);
    assert("import"@ =~= seq!['i', 'm', 'p', 'o', 'r', 't']);
    assert("struct"@ =~= seq!['s', 't', 'r', 'u', 'c', 't']);
    assert("breakpoint"@ =~= seq!['b', 'r', 'e', 'a', 'k', 'p', 'o', 'i', 'n', 't']);
}

/// Every word of the language is written in letters.
proof fn lemma_words(k: Key)
    requires
        key_word(k) is Some,
    ensures
        wordlike(key_word(k)->0),
{
    lemma_reveal_short();
    lemma_reveal_four();
    lemma_reveal_long();
    let w = key_word(k)->0;
    assert(w.len() <= 10);
    assert forall|j: int| 0 <= j < w.len() implies is_word(#[trigger] w[j]) by {
        assert(j == 0 || j == 1 || j == 2 || j == 3 || j == 4 || j == 5 || j == 6 || j == 7 || j == 8 || j == 9);
    }
}

/// A word of the language is its own token, and any other is a name.
proof fn lemma_word_tok(k: Key, w: Seq<char>)
    ensures
        key_word(k) is Some ==> word_tok(key_word(k)->0) == TokV::Key(k),
        (forall|x: Key| #[trigger] key_word(x) != Some(w)) ==> word_tok(w) == TokV::Ident(w),
{
    lemma_starts();
    lemma_more_starts();
    if forall|x: Key| #[trigger] key_word(x) != Some(w) {
        lemma_no_word(w);
    }
}

proof fn lemma_starts()
    ensures
        "int"@.len() == 3 && "int"@[0] == 'i' && "int"@[1] == 'n',
        "float"@.len() == 5 && "float"@[0] == 'f' && "float"@[1] == 'l',
        "bool"@.len() == 4 && "bool"@[0] == 'b' && "bool"@[1] == 'o',
        "str"@.len() == 3 && "str"@[0] == 's' && "str"@[1] == 't',
        "true"@.len() == 4 && "true"@[0] == 't' && "true"@[1] == 'r',
        "false"@.len() == 5 && "false"@[0] == 'f' && "false"@[1] == 'a',
        "fn"@.len() == 2 && "fn"@[0] == 'f' && "fn"@[1] == 'n',
        "if"@.len() == 2 && "if"@[0] == 'i' && "if"@[1] == 'f',
        "else"@.len() == 4 && "else"@[0] == 'e' && "else"@[1] == 'l',
        "while"@.len() == 5 && "while"@[0] == 'w' && "while"@[1] == 'h',
        "for"@.len() == 3 && "for"@[0] == 'f' && "for"@[1] == 'o',
        "in"@.len() == 2 && "in"@[0] == 'i' && "in"@[1] == 'n',
        "return"@.len() == 6 && "return"@[0] == 'r' && "return"@[1] == 'e',
        "go"@.len() == 2 && "go"@[0] == 'g' && "go"@[1] == 'o',
{
    reveal_strlit("int");
    reveal_strlit("float");
    reveal_strlit("bool");
    reveal_strlit("str");
    reveal_strlit("true");
    reveal_strlit("false");
    reveal_strlit("fn");
    reveal_strlit("if");
    reveal_strlit("else");
    reveal_strlit("while");
    reveal_strlit("for");
    reveal_strlit("in");
    reveal_strlit("return");
    reveal_strlit("go");
}

proof fn lemma_more_starts()
    ensures
        "try"@.len() == 3 && "try"@[0] == 't' && "try"@[1] == 'r',
        "catch"@.len() == 5 && "catch"@[0] == 'c' && "catch"@[1] == 'a',
        "throw"@.len() == 5 && "throw"@[0] == 't' && "throw"@[1] == 'h',
        "breakpoint"@.len() == 10 && "breakpoint"@[0] == 'b' && "breakpoint"@[1] == 'r',
        "load"@.len() == 4 && "load"@[0] == 'l' && "load"@[1] == 'o',
        "lazy"@.len() == 4 && "lazy"@[0] == 'l' && "lazy"@[1] == 'a',
        "use"@.len() == 3 && "use"@[0] == 'u' && "use"@[1] == 's',
        "import"@.len() == 6 && "import"@[0] == 'i' && "import"@[1] == 'm',
        "from"@.len() == 4 && "from"@[0] == 'f' && "from"@[1] == 'r',
        "alias"@.len() == 5 && "alias"@[0] == 'a' && "alias"@[1] == 'l',
        "as"@.len() == 2 && "as"@[0] == 'a' && "as"@[1] == 's',
        "tmp"@.len() == 3 && "tmp"@[0] == 't' && "tmp"@[1] == 'm',
        "struct"@.len() == 6 && "struct"@[0] == 's' && "struct"@[1] == 't',
        "match"@.len() == 5 && "match"@[0] == 'm' && "match"@[1] == 'a',
{
    reveal_strlit("try");
    reveal_strlit("catch");
    reveal_strlit("throw");
    reveal_strlit("breakpoint");
    reveal_strlit("load");
    reveal_strlit("lazy");
    reveal_strlit("use");
    reveal_strlit("import");
    reveal_strlit("from");
    reveal_strlit("alias");
    reveal_strlit("as");
    reveal_strlit("tmp");
    reveal_strlit("struct");
    reveal_strlit("match");
}

proof fn lemma_no_word(w: Seq<char>)
    requires
        forall|x: Key| #[trigger] key_word(x) != Some(w),
    ensures
        word_tok(w) == TokV::Ident(w),
{
    assert(key_word(Key::TInt) != Some(w));
    assert(key_word(Key::TFloat) != Some(w));
    assert(key_word(Key::TBool) != Some(w));
    assert(key_word(Key::TStr) != Some(w));
    assert(key_word(Key::True) != Some(w));
    assert(key_word(Key::False) != Some(w));
    assert(key_word(Key::Fn) != Some(w));
    assert(key_word(Key::If) != Some(w));
    assert(key_word(Key::Else) != Some(w));
    assert(key_word(Key::While) != Some(w));
    assert(key_word(Key::For) != Some(w));
    assert(key_word(Key::In) != Some(w));
    assert(key_word(Key::Return) != Some(w));
    assert(key_word(Key::Go) != Some(w));
    assert(key_word(Key::Try) != Some(w));
    assert(key_word(Key::Catch) != Some(w));
    assert(key_word(Key::Throw) != Some(w));
    assert(key_word(Key::Breakpoint) != Some(w));
    assert(key_word(Key::Load) != Some(w));
    assert(key_word(Key::Lazy) != Some(w));
    assert(key_word(Key::Use) != Some(w));
    assert(key_word(Key::Import) != Some(w));
    assert(key_word(Key::From) != Some(w));
    assert(key_word(Key::Alias) != Some(w));
    assert(key_word(Key::As) != Some(w));
    assert(key_word(Key::Tmp) != Some(w));
    assert(key_word(Key::Struct) != Some(w));
    assert(key_word(Key::Match) != Some(w));
}

/// Whether a text stands at a place, with a space behind it.
spec fn stands(s: Seq<char>, i: int, t: Seq<char>) -> bool {
    &&& 0 <= i
    &&& i + t.len() < s.len()
    &&& s.subrange(i, i + t.len()) == t
    &&& s[i + t.len()] == ' '
}

proof fn lemma_stands(s: Seq<char>, i: int, t: Seq<char>, j: int)
    requires
        stands(s, i, t),
        0 <= j < t.len(),
    ensures
        s[i + j] == t[j],
{
    assert(s.subrange(i, i + t.len())[j] == s[i + j]);
}

proof fn lemma_word_at(s: Seq<char>, i: int, w: Seq<char>)
    requires
        stands(s, i, w),
        wordlike(w),
    ensures
        token_at(s, i) == Ok::<(TokV, int), LexErrV>((word_tok(w), i + w.len())),
        !is_blank(s[i]),
        s[i] != '/',
{
    let e = i + w.len();
    assert forall|j: int| i <= j < e implies is_word(#[trigger] s[j]) by {
        lemma_stands(s, i, w, j - i);
        assert(is_word(w[j - i]));
    }
    lemma_stands(s, i, w, 0);
    lemma_word_end(s, i + 1, e);
    if i + 1 < e {
        assert(is_word(s[i + 1]));
    }
}

proof fn lemma_number_at(s: Seq<char>, i: int, d: Seq<char>)
    requires
        stands(s, i, d),
        all_digits(d),
        d.len() > 0,
        nat_of(d) <= i64::MAX,
    ensures
        token_at(s, i) == Ok::<(TokV, int), LexErrV>((TokV::IntLit(nat_of(d) as i64), i + d.len())),
        !is_blank(s[i]),
        s[i] != '/',
{
    let e = i + d.len();
    assert forall|j: int| i <= j < e implies is_digit(#[trigger] s[j]) by {
        lemma_stands(s, i, d, j - i);
        assert(is_digit(d[j - i]));
    }
    assert(is_digit(s[i]));
    lemma_digits_end(s, i, e);
}

proof fn lemma_float_at(s: Seq<char>, i: int, a: Seq<char>, b: Seq<char>)
    requires
        stands(s, i, a + seq!['.'] + b),
        all_digits(a),
        all_digits(b),
        a.len() > 0,
        b.len() > 0,
    ensures
        token_at(s, i) == Ok::<(TokV, int), LexErrV>((TokV::FloatLit(a + seq!['.'] + b), i + a.len() + 1 + b.len())),
        !is_blank(s[i]),
        s[i] != '/',
{
    let t = a + seq!['.'] + b;
    let e = i + a.len();
    let f = e + 1 + b.len();
    assert forall|j: int| i <= j < e implies is_digit(#[trigger] s[j]) by {
        lemma_stands(s, i, t, j - i);
        assert(t[j - i] == a[j - i]);
        assert(is_digit(a[j - i]));
    }
    lemma_stands(s, i, t, a.len() as int);
    assert(s[e] == '.');
    assert forall|j: int| e + 1 <= j < f implies is_digit(#[trigger] s[j]) by {
        lemma_stands(s, i, t, j - i);
        assert(t[j - i] == b[j - e - 1]);
        assert(is_digit(b[j - e - 1]));
    }
    assert(is_digit(s[i]));
    assert(is_digit(s[e + 1]));
    lemma_digits_end(s, i, e);
    lemma_digits_end(s, e + 1, f);
}

proof fn lemma_quoted(s: Seq<char>, start: int, i: int, acc: Seq<char>, t: Seq<char>)
    requires
        0 <= i,
        i + quoted(t).len() < s.len(),
        s.subrange(i, i + quoted(t).len()) == quoted(t),
        s[i + quoted(t).len()] == '"',
    ensures
        str_body(s, start, i, acc) == Ok::<(Seq<char>, int), LexErrV>((acc + t, i + quoted(t).len() + 1)),
    decreases t.len(),
{
    if t.len() == 0 {
        assert(acc + t =~= acc);
    } else {
        let c = t[0];
        let q = quoted_char(c);
        let rest = t.skip(1);
        let n = i + q.len();
        let all = s.subrange(i, i + quoted(t).len());
        assert(all[0] == q[0]);
        assert(s[i] == q[0]);
        if q.len() == 2 {
            assert(all[1] == q[1]);
            assert(s[i + 1] == q[1]);
        }
        assert(s.subrange(n, n + quoted(rest).len()) =~= quoted(rest)) by {
            assert forall|j: int| 0 <= j < quoted(rest).len() implies s.subrange(n, n + quoted(rest).len())[j]
                == quoted(rest)[j] by {
                assert(all[q.len() + j] == quoted(t)[q.len() + j]);
            }
        }
        lemma_quoted(s, start, n, acc.push(c), rest);
        assert(acc.push(c) + rest =~= acc + t);
    }
}

proof fn lemma_text_at(s: Seq<char>, i: int, t: Seq<char>)
    requires
        stands(s, i, seq!['"'] + quoted(t) + seq!['"']),
    ensures
        token_at(s, i) == Ok::<(TokV, int), LexErrV>((TokV::StrLit(t), i + quoted(t).len() + 2)),
        !is_blank(s[i]),
        s[i] != '/',
{
    let q = quoted(t);
    let w = seq!['"'] + q + seq!['"'];
    lemma_stands(s, i, w, 0);
    lemma_stands(s, i, w, q.len() + 1int);
    assert(s[i + 1 + q.len()] == '"');
    assert(s.subrange(i + 1, i + 1 + q.len()) =~= q) by {
        assert forall|j: int| 0 <= j < q.len() implies s.subrange(i + 1, i + 1 + q.len())[j] == q[j] by {
            lemma_stands(s, i, w, j + 1);
        }
    }
    lemma_quoted(s, i, i + 1, Seq::empty(), t);
    assert(Seq::<char>::empty() + t =~= t);
}

proof fn lemma_sign_at(s: Seq<char>, i: int, k: Key)
    requires
        key_word(k) is None,
        k != Key::Eof,
        stands(s, i, key_sign(k)),
    ensures
        token_at(s, i) == Ok::<(TokV, int), LexErrV>((TokV::Key(k), i + key_sign(k).len())),
        !is_blank(s[i]),
        s[i] == '/' ==> s[i + 1] == ' ',
{
    let t = key_sign(k);
    lemma_stands(s, i, t, 0);
    if t.len() == 2 {
        lemma_stands(s, i, t, 1);
    }
}

/// A token that is spelled at a place is read there.
proof fn lemma_token(s: Seq<char>, i: int, t: TokV)
    requires
        spellable(t),
        stands(s, i, spelling(t)),
    ensures
        spelling(t).len() > 0,
        token_at(s, i) == Ok::<(TokV, int), LexErrV>((t, i + spelling(t).len())),
        !is_blank(s[i]),
        s[i] == '/' ==> s[i + 1] == ' ',
{
    match t {
        TokV::Key(k) => {
            if key_word(k) is Some {
                lemma_words(k);
                lemma_word_tok(k, Seq::empty());
                lemma_word_at(s, i, key_word(k)->0);
            } else {
                lemma_sign_at(s, i, k);
            }
        },
        TokV::Ident(w) => {
            lemma_word_tok(Key::Eof, w);
            lemma_word_at(s, i, w);
        },
        TokV::IntLit(n) => {
            crate::builtins::http_laws::lemma_dec(n as nat);
            lemma_number_at(s, i, dec(n as nat));
        },
        TokV::FloatLit(f) => {
            let (a, b) = choose|a: Seq<char>, b: Seq<char>|
                a.len() > 0 && b.len() > 0 && all_digits(a) && all_digits(b) && f == #[trigger] (a + seq!['.'] + b);
            lemma_float_at(s, i, a, b);
        },
        TokV::StrLit(x) => {
            lemma_text_at(s, i, x);
        },
        TokV::FStr(_) => {},
    }
}

proof fn lemma_spelled(s: Seq<char>, i: int, ts: Seq<TokV>)
    requires
        0 <= i <= s.len(),
        s.skip(i) == spelled(ts),
        forall|k: int| 0 <= k < ts.len() ==> spellable(#[trigger] ts[k]),
    ensures
        tokens(s, i) == Ok::<Seq<(TokV, Span)>, LexErrV>(placed(s, i, ts)),
    decreases ts.len(),
{
    if ts.len() > 0 {
        let t = ts[0];
        let w = spelling(t);
        let e = i + w.len();
        let rest = ts.skip(1);
        assert(spellable(ts[0]));
        assert(s.skip(i).len() == w.len() + 1 + spelled(rest).len());
        assert(s.subrange(i, e) =~= w) by {
            assert forall|j: int| 0 <= j < w.len() implies s.subrange(i, e)[j] == w[j] by {
                assert(s.skip(i)[j] == spelled(ts)[j]);
            }
        }
        assert(s.skip(i)[w.len() as int] == ' ');
        assert(s[e] == ' ');
        assert(s.skip(e + 1) =~= spelled(rest)) by {
            assert forall|j: int| 0 <= j < spelled(rest).len() implies s.skip(e + 1)[j] == spelled(rest)[j] by {
                assert(s.skip(i)[w.len() + 1 + j] == spelled(ts)[w.len() + 1 + j]);
            }
        }
        assert forall|k: int| 0 <= k < rest.len() implies spellable(#[trigger] rest[k]) by {
            assert(rest[k] == ts[k + 1]);
        }
        lemma_token(s, i, t);
        lemma_spelled(s, e + 1, rest);
        assert(tokens(s, e) == tokens(s, e + 1));
    } else {
        assert(s.skip(i).len() == 0);
    }
}

/// Tokens that are spelled one after the other, with a space behind each, are read as they are, at the
/// places where they stand.
pub proof fn law_tokens_read_back(ts: Seq<TokV>)
    requires
        forall|k: int| 0 <= k < ts.len() ==> spellable(#[trigger] ts[k]),
    ensures
        tokens(spelled(ts), 0) == Ok::<Seq<(TokV, Span)>, LexErrV>(placed(spelled(ts), 0, ts)),
{
    assert(spelled(ts).skip(0) =~= spelled(ts));
    lemma_spelled(spelled(ts), 0, ts);
}

proof fn lemma_line_end(s: Seq<char>, i: int, e: int)
    requires
        0 <= i <= e <= s.len(),
        forall|j: int| i <= j < e ==> #[trigger] s[j] != '\n',
        e == s.len() || s[e] == '\n',
    ensures
        line_end(s, i) == e,
    decreases e - i,
{
    if i < e {
        lemma_line_end(s, i + 1, e);
    }
}

proof fn lemma_comment_end(s: Seq<char>, i: int, e: int)
    requires
        0 <= i <= e,
        e + 1 < s.len(),
        forall|j: int| i <= j < e ==> !(#[trigger] s[j] == '*' && s[j + 1] == '/'),
        s[e] == '*',
        s[e + 1] == '/',
    ensures
        comment_end(s, i) == Some(e + 2),
    decreases e - i,
{
    if i < e {
        lemma_comment_end(s, i + 1, e);
    }
}

/// Nothing is read from a comment: after `//` reading goes on at the end of the line, and after `/*`
/// behind the first `*/`.
pub proof fn law_comments_are_left_out(s: Seq<char>, i: int, e: int)
    requires
        0 <= i,
        i + 2 <= e,
        e <= s.len(),
        s[i] == '/',
    ensures
        s[i + 1] == '/' && (forall|j: int| i <= j < e ==> #[trigger] s[j] != '\n') && (e == s.len() || s[e] == '\n')
            ==> tokens(s, i) == tokens(s, e),
        s[i + 1] == '*' && e + 1 < s.len() && (forall|j: int|
            i + 2 <= j < e ==> !(#[trigger] s[j] == '*' && s[j + 1] == '/')) && s[e] == '*' && s[e + 1] == '/' ==> tokens(
            s,
            i,
        ) == tokens(s, e + 2),
        s[i + 1] == '*' && (forall|j: int| i + 2 <= j < s.len() - 1 ==> !(#[trigger] s[j] == '*' && s[j + 1] == '/'))
            ==> (tokens(s, i) matches Err(x) && x.code == codes::UNTERMINATED_COMMENT@),
{
    if s[i + 1] == '/' && (forall|j: int| i <= j < e ==> #[trigger] s[j] != '\n') && (e == s.len() || s[e] == '\n') {
        lemma_line_end(s, i, e);
    }
    if s[i + 1] == '*' && e + 1 < s.len() && (forall|j: int|
        i + 2 <= j < e ==> !(#[trigger] s[j] == '*' && s[j + 1] == '/')) && s[e] == '*' && s[e + 1] == '/' {
        lemma_comment_end(s, i + 2, e);
    }
    if s[i + 1] == '*' && (forall|j: int| i + 2 <= j < s.len() - 1 ==> !(#[trigger] s[j] == '*' && s[j + 1] == '/')) {
        lemma_no_comment_end(s, i + 2);
    }
}

proof fn lemma_no_comment_end(s: Seq<char>, i: int)
    requires
        0 <= i,
        forall|j: int| i <= j < s.len() - 1 ==> !(#[trigger] s[j] == '*' && s[j + 1] == '/'),
    ensures
        comment_end(s, i) is None,
    decreases s.len() - i,
{
    if i + 1 < s.len() {
        assert(!(s[i] == '*' && s[i + 1] == '/'));
        lemma_no_comment_end(s, i + 1);
    }
}

/// Whether a text stands for itself in an interpolated text.
pub open spec fn literal(t: Seq<char>) -> bool {
    forall|j: int| 0 <= j < t.len() ==> (#[trigger] t[j]) != '"' && t[j] != '\\' && t[j] != '{' && t[j] != '}'
}

proof fn lemma_literal(s: Seq<char>, start: int, i: int, e: int, parts: Seq<PartV>, lit: Seq<char>)
    requires
        0 <= i <= e <= s.len(),
        literal(s.subrange(i, e)),
    ensures
        fstr_body(s, start, i, parts, lit) == fstr_body(s, start, e, parts, lit + s.subrange(i, e)),
    decreases e - i,
{
    let t = s.subrange(i, e);
    if i < e {
        assert(t[0] == s[i]);
        let u = s.subrange(i + 1, e);
        assert forall|j: int| 0 <= j < u.len() implies (#[trigger] u[j]) != '"' && u[j] != '\\' && u[j] != '{' && u[j]
            != '}' by {
            assert(u[j] == t[j + 1]);
        }
        lemma_literal(s, start, i + 1, e, parts, lit.push(s[i]));
        assert(lit.push(s[i]) + u =~= lit + t);
    } else {
        assert(lit + t =~= lit);
    }
}

proof fn lemma_code_end(s: Seq<char>, i: int, e: int)
    requires
        0 <= i <= e < s.len(),
        forall|j: int| i <= j < e ==> (#[trigger] s[j]) != '{' && s[j] != '}',
        s[e] == '}',
    ensures
        code_end(s, i, 0) == Some(e),
    decreases e - i,
{
    if i < e {
        lemma_code_end(s, i + 1, e);
    }
}

/// An interpolated text is read as its parts: text, code between braces, and text again.
pub proof fn law_interpolated_texts_are_read(a: Seq<char>, code: Seq<char>, b: Seq<char>)
    requires
        a.len() > 0,
        b.len() > 0,
        code.len() > 0,
        literal(a),
        literal(b),
        forall|j: int| 0 <= j < code.len() ==> (#[trigger] code[j]) != '{' && code[j] != '}',
    ensures
        ({
            let s = seq!['f', '"'] + a + seq!['{'] + code + seq!['}'] + b + seq!['"'];
            token_at(s, 0) == Ok::<(TokV, int), LexErrV>(
                (TokV::FStr(seq![PartV::Lit(a), PartV::Code(code), PartV::Lit(b)]), s.len() as int),
            )
        }),
{
    let s = seq!['f', '"'] + a + seq!['{'] + code + seq!['}'] + b + seq!['"'];
    let p: int = 2int + a.len();
    let q: int = p + 1 + code.len();
    let r: int = q + 1 + b.len();
    assert(s.subrange(2, p) =~= a);
    assert(s[p] == '{' && s[q] == '}' && s[r] == '"');
    assert(s.subrange(p + 1, q) =~= code);
    assert(s.subrange(q + 1, r) =~= b);
    assert(s[p + 1] == code[0]);
    assert forall|j: int| p + 1 <= j < q implies (#[trigger] s[j]) != '{' && s[j] != '}' by {
        assert(s[j] == code[j - p - 1]);
    }
    lemma_literal(s, 0, 2, p, Seq::empty(), Seq::empty());
    assert(Seq::<char>::empty() + a =~= a);
    lemma_code_end(s, p + 1, q);
    let parts = seq![PartV::Lit(a), PartV::Code(code)];
    assert(Seq::<PartV>::empty().push(PartV::Lit(a)).push(PartV::Code(code)) =~= parts);
    lemma_literal(s, 0, q + 1, r, parts, Seq::empty());
    assert(Seq::<char>::empty() + b =~= b);
    assert(parts.push(PartV::Lit(b)) =~= seq![PartV::Lit(a), PartV::Code(code), PartV::Lit(b)]);
    assert(s[0] == 'f' && s[1] == '"');
}

} // verus!
