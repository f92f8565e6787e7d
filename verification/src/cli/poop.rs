//! Judging how tangled a source text is.

use vstd::prelude::*;

use crate::text::{cat5, chars, dec, dec_usize, eq, slice};

verus! {

/// What was found in a text: how deep `if` nests and how many ways lead through it. `depth`
/// counts each `if` that has not ended, `waiting` those of them whose brace is still to come,
/// and `opens` says of each open brace how many of them end with it.
pub struct FoundV {
    pub max_depth: nat,
    pub depth: nat,
    pub waiting: nat,
    pub opens: Seq<nat>,
    pub complexity: nat,
    pub in_string: bool,
    pub prev: char,
}

/// Whether a character may begin a word.
pub open spec fn word_start(c: char) -> bool {
    'a' <= c <= 'z' || 'A' <= c <= 'Z' || c == '_'
}

/// Whether a character may stand in a word.
pub open spec fn word_char(c: char) -> bool {
    word_start(c) || '0' <= c <= '9'
}

/// The end of the word from `i` on.
pub open spec fn word_end(s: Seq<char>, i: int) -> int
    decreases s.len() - i,
{
    if 0 <= i < s.len() && word_char(s[i]) {
        word_end(s, i + 1)
    } else {
        i
    }
}

/// The end of the line from `i` on.
pub open spec fn line_end(s: Seq<char>, i: int) -> int
    decreases s.len() - i,
{
    if 0 <= i < s.len() && s[i] != '\n' {
        line_end(s, i + 1)
    } else {
        i
    }
}

/// Behind the end of the comment from `i` on, or the end of the text.
pub open spec fn comment_end(s: Seq<char>, i: int) -> int
    decreases s.len() - i,
{
    if i < 0 || i + 1 >= s.len() {
        s.len() as int
    } else if s[i] == '*' && s[i + 1] == '/' {
        i + 2
    } else {
        comment_end(s, i + 1)
    }
}

/// Whether a word opens another way through a text.
pub open spec fn branches(w: Seq<char>) -> bool {
    w == "if"@ || w == "for"@ || w == "while"@ || w == "case"@ || w == "catch"@
}

/// What is found with a word.
pub open spec fn with_word(f: FoundV, w: Seq<char>) -> FoundV {
    let complexity = if branches(w) {
        f.complexity + 1
    } else {
        f.complexity
    };
    if w == "if"@ {
        FoundV {
            complexity,
            depth: f.depth + 1,
            waiting: f.waiting + 1,
            max_depth: if f.depth + 1 > f.max_depth {
                f.depth + 1
            } else {
                f.max_depth
            },
            ..f
        }
    } else {
        FoundV { complexity, ..f }
    }
}

/// What is found once `n` of the nested `if` have ended.
pub open spec fn left_by(f: FoundV, n: nat) -> FoundV {
    FoundV {
        depth: if f.depth > n {
            (f.depth - n) as nat
        } else {
            0
        },
        ..f
    }
}

/// What is found with a mark: a brace opens for each `if` that waits for one, a closing brace
/// ends those that it was opened for, and a semicolon ends those that have none.
pub open spec fn with_mark(f: FoundV, c: char) -> FoundV {
    if c == '{' {
        FoundV { opens: f.opens.push(f.waiting), waiting: 0, prev: c, ..f }
    } else if c == '}' && f.opens.len() > 0 {
        left_by(FoundV { opens: f.opens.drop_last(), prev: c, ..f }, f.opens.last())
    } else if c == ';' {
        left_by(FoundV { waiting: 0, prev: c, ..f }, f.waiting)
    } else {
        FoundV { prev: c, ..f }
    }
}

/// The ends of words, lines and comments lie behind their beginnings.
pub proof fn lemma_ends(s: Seq<char>, i: int)
    requires
        0 <= i <= s.len(),
    ensures
        i <= word_end(s, i) <= s.len(),
        i <= line_end(s, i) <= s.len(),
        i <= comment_end(s, i) <= s.len(),
    decreases s.len() - i,
{
    if i < s.len() {
        lemma_ends(s, i + 1);
    }
}

/// What is found in a text from `i` on.
pub open spec fn found_from(s: Seq<char>, i: int, f: FoundV) -> FoundV
    decreases s.len() - i,
{
    if i < 0 || i >= s.len() {
        f
    } else {
        proof {
            lemma_ends(s, i + 1);
            if i + 2 <= s.len() {
                lemma_ends(s, i + 2);
            }
        }
        let c = s[i];
        if c == '"' && f.prev != '\\' {
            found_from(s, i + 1, FoundV { in_string: !f.in_string, prev: c, ..f })
        } else if f.in_string {
            found_from(s, i + 1, FoundV { prev: c, ..f })
        } else if c == '/' && i + 1 < s.len() && s[i + 1] == '/' {
            found_from(s, line_end(s, i + 1), f)
        } else if c == '/' && i + 1 < s.len() && s[i + 1] == '*' {
            found_from(s, comment_end(s, i + 2), f)
        } else if word_start(c) {
            found_from(s, word_end(s, i + 1), with_word(f, s.subrange(i, word_end(s, i + 1))))
        } else {
            found_from(s, i + 1, with_mark(f, c))
        }
    }
}

/// What is found in a text before its first character.
pub open spec fn nothing_found() -> FoundV {
    FoundV { max_depth: 0, depth: 0, waiting: 0, opens: Seq::empty(), complexity: 1, in_string: false, prev: ' ' }
}

/// How deep `if` nests in a text, and how many ways lead through it.
pub open spec fn judged(s: Seq<char>) -> (nat, nat) {
    let f = found_from(s, 0, nothing_found());
    (f.max_depth, f.complexity)
}

fn starts_word(c: char) -> (r: bool)
    ensures
        r == word_start(c),
{
    ('a' <= c && c <= 'z') || ('A' <= c && c <= 'Z') || c == '_'
}

fn end_of_word(v: &Vec<char>, from: usize) -> (r: usize)
    requires
        from <= v.len(),
    ensures
        r == word_end(v@, from as int),
        from <= r <= v.len(),
{
    let mut i: usize = from;
    while i < v.len() && (starts_word(v[i]) || ('0' <= v[i] && v[i] <= '9'))
        invariant
            from <= i <= v.len(),
            word_end(v@, i as int) == word_end(v@, from as int),
        decreases v.len() - i,
    {
        i = i + 1;
    }
    i
}

fn end_of_line(v: &Vec<char>, from: usize) -> (r: usize)
    requires
        from <= v.len(),
    ensures
        r == line_end(v@, from as int),
        from <= r <= v.len(),
{
    let mut i: usize = from;
    while i < v.len() && v[i] != '\n'
        invariant
            from <= i <= v.len(),
            line_end(v@, i as int) == line_end(v@, from as int),
        decreases v.len() - i,
    {
        i = i + 1;
    }
    i
}

fn end_of_comment(v: &Vec<char>, from: usize) -> (r: usize)
    requires
        from <= v.len(),
    ensures
        r == comment_end(v@, from as int),
        from <= r <= v.len(),
{
    let mut i: usize = from;
    while i < v.len() && i + 1 < v.len()
        invariant
            from <= i <= v.len(),
            comment_end(v@, i as int) == comment_end(v@, from as int),
        decreases v.len() - i,
    {
        if v[i] == '*' && v[i + 1] == '/' {
            return i + 2;
        }
        i = i + 1;
    }
    v.len()
}

fn char_at(v: &Vec<char>, i: usize) -> (c: char)
    requires
        i < v.len(),
    ensures
        c == v@[i as int],
{
    v[i]
}

/// Numbers, mathematically.
spec fn nats(v: Seq<usize>) -> Seq<nat> {
    v.map_values(|n: usize| n as nat)
}

/// Judges a text.
#[verifier::rlimit(40)]
pub fn analyze_poop(code: &str) -> (r: (usize, usize))
    ensures
        (r.0 as nat, r.1 as nat) == judged(code@),
{
    let v = chars(code);
    let mut max_depth: usize = 0;
    let mut depth: usize = 0;
    let mut waiting: usize = 0;
    let mut opens: Vec<usize> = Vec::new();
    assert(nats(opens@) =~= Seq::empty());
    let mut complexity: usize = 1;
    let mut in_string = false;
    let mut prev: char = ' ';
    let mut i: usize = 0;
    let ghost goal = found_from(code@, 0, nothing_found());
    while i < v.len()
        invariant
            i <= v.len(),
            v@ == code@,
            depth <= i / 2,
            waiting <= i / 2,
            max_depth <= i / 2,
            complexity <= 1 + i / 2,
            goal == found_from(code@, 0, nothing_found()),
            found_from(
                code@,
                i as int,
                FoundV {
                    max_depth: max_depth as nat,
                    depth: depth as nat,
                    waiting: waiting as nat,
                    opens: nats(opens@),
                    complexity: complexity as nat,
                    in_string,
                    prev,
                },
            ) == goal,
        decreases v.len() - i,
    {
        let c = char_at(&v, i);
        if c == '"' && prev != '\\' {
            in_string = !in_string;
            prev = c;
            i = i + 1;
        } else if in_string {
            prev = c;
            i = i + 1;
        } else if c == '/' && i + 1 < v.len() && v[i + 1] == '/' {
            i = end_of_line(&v, i + 1);
        } else if c == '/' && i + 1 < v.len() && v[i + 1] == '*' {
            i = end_of_comment(&v, i + 2);
        } else if starts_word(c) {
            let j = end_of_word(&v, i + 1);
            let w = slice(&v, i, j);
            proof {
                reveal_strlit("if");
                reveal_strlit("for");
                reveal_strlit("while");
                reveal_strlit("case");
                reveal_strlit("catch");
            }
            assert(w@.len() == j - i);
            let ghost f = FoundV {
                max_depth: max_depth as nat,
                depth: depth as nat,
                waiting: waiting as nat,
                opens: nats(opens@),
                complexity: complexity as nat,
                in_string,
                prev,
            };
            assert(found_from(code@, i as int, f) == found_from(code@, j as int, with_word(f, w@)));
            assert("if"@.len() == 2 && "for"@.len() == 3 && "while"@.len() == 5 && "case"@.len() == 4 && "catch"@.len()
                == 5);
            if eq(w.as_str(), "if") {
                complexity = complexity + 1;
                depth = depth + 1;
                waiting = waiting + 1;
                if depth > max_depth {
                    max_depth = depth;
                }
            } else if eq(w.as_str(), "for") || eq(w.as_str(), "while") || eq(w.as_str(), "case") || eq(
                w.as_str(),
                "catch",
            ) {
                complexity = complexity + 1;
            }
            i = j;
        } else {
            let ghost was = opens@;
            if c == '{' {
                opens.push(waiting);
                waiting = 0;
                assert(nats(opens@) =~= nats(was).push(opens@.last() as nat));
            } else if c == '}' {
                if let Some(n) = opens.pop() {
                    assert(nats(opens@) =~= nats(was).drop_last());
                    assert(nats(was).last() == n);
                    depth = if depth > n { depth - n } else { 0 };
                }
            } else if c == ';' {
                depth = if depth > waiting { depth - waiting } else { 0 };
                waiting = 0;
            }
            prev = c;
            i = i + 1;
        }
    }
    (max_depth, complexity)
}

/// The report on a text.
pub open spec fn poop_text(max_depth: nat, complexity: nat) -> Seq<char> {
    "💩 屎山检测报告 💩\n  if 嵌套深度: "@ + dec(max_depth) + "\n  圈复杂度:   "@ + dec(complexity) + (if max_depth >= 5
        || complexity >= 15 {
        if max_depth >= 5 {
            "\n  评级: 💩💩💩 危机！这是屎山！\n  建议: 减少 if 嵌套，使用 return early 或模式匹配"@
        } else {
            "\n  评级: 💩💩💩 危机！这是屎山！\n  建议: 拆分函数，降低单函数复杂度"@
        }
    } else if max_depth >= 3 || complexity >= 8 {
        "\n  评级: 💩💩 注意，代码需要重构"@
    } else {
        "\n  评级: ✅ 代码质量良好，继续保持！"@
    })
}

/// The report on a text.
pub fn poop_report(max_depth: usize, complexity: usize) -> (r: String)
    ensures
        r@ == poop_text(max_depth as nat, complexity as nat),
{
    let d = dec_usize(max_depth);
    let c = dec_usize(complexity);
    let verdict = if max_depth >= 5 {
        "\n  评级: 💩💩💩 危机！这是屎山！\n  建议: 减少 if 嵌套，使用 return early 或模式匹配"
    } else if complexity >= 15 {
        "\n  评级: 💩💩💩 危机！这是屎山！\n  建议: 拆分函数，降低单函数复杂度"
    } else if max_depth >= 3 || complexity >= 8 {
        "\n  评级: 💩💩 注意，代码需要重构"
    } else {
        "\n  评级: ✅ 代码质量良好，继续保持！"
    };
    cat5("💩 屎山检测报告 💩\n  if 嵌套深度: ", d.as_str(), "\n  圈复杂度:   ", c.as_str(), verdict)
}

} // verus!
