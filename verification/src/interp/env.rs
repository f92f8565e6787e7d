//! Variables in nested scopes.

use vstd::prelude::*;

use crate::table::Table;
use crate::text::{cat5, strs};
use crate::value::{pieces_v, shown, value_v, Piece, PieceV, Value, ValueV};

verus! {

/// A scope: its variables in the order in which they came, and their values.
#[verifier::ext_equal]
pub struct ScopeV {
    pub order: Seq<Seq<char>>,
    pub vals: Map<Seq<char>, ValueV>,
}

/// The mathematical form of a scope.
pub open spec fn scope_v(t: Table<Value>) -> ScopeV {
    ScopeV { order: t.order(), vals: t@.map_values(|v: Value| value_v(v)) }
}

/// The mathematical form of scopes, the innermost last.
pub open spec fn env_v(s: Seq<Table<Value>>) -> Seq<ScopeV> {
    s.map_values(|t: Table<Value>| scope_v(t))
}

/// Whether the tables of scopes are sound.
pub open spec fn env_wf(s: Seq<Table<Value>>) -> bool {
    forall|i: int| 0 <= i < s.len() ==> (#[trigger] s[i]).wf()
}

/// The empty scope.
pub open spec fn no_scope() -> ScopeV {
    ScopeV { order: Seq::empty(), vals: Map::empty() }
}

impl ScopeV {
    /// The scope with a value for a variable.
    pub open spec fn put(self, k: Seq<char>, v: ValueV) -> ScopeV {
        ScopeV {
            order: if self.vals.dom().contains(k) {
                self.order
            } else {
                self.order.push(k)
            },
            vals: self.vals.insert(k, v),
        }
    }
}

/// The innermost of the first `n` scopes that has a variable.
pub open spec fn scope_of(env: Seq<ScopeV>, k: Seq<char>, n: int) -> Option<int>
    decreases n,
{
    if n <= 0 || n > env.len() {
        None
    } else if env[n - 1].vals.dom().contains(k) {
        Some(n - 1)
    } else {
        scope_of(env, k, n - 1)
    }
}

/// The value of a variable: that of the innermost scope that has it.
pub open spec fn env_get(env: Seq<ScopeV>, k: Seq<char>) -> Option<ValueV> {
    match scope_of(env, k, env.len() as int) {
        Some(i) => Some(env[i].vals[k]),
        None => None,
    }
}

/// The scopes with a value for a variable: in the innermost scope that has it, else in the
/// innermost scope.
pub open spec fn env_set(env: Seq<ScopeV>, k: Seq<char>, v: ValueV) -> Seq<ScopeV> {
    let i = match scope_of(env, k, env.len() as int) {
        Some(i) => i,
        None => env.len() - 1,
    };
    if 0 <= i < env.len() {
        env.update(i, env[i].put(k, v))
    } else {
        env
    }
}

/// The value of a variable.
pub fn get<'b>(env: &'b Vec<Table<Value>>, k: &str) -> (r: Option<&'b Value>)
    requires
        env_wf(env@),
    ensures
        match r {
            Some(v) => env_get(env_v(env@), k@) == Some(v@),
            None => env_get(env_v(env@), k@) is None,
        },
{
    let mut n: usize = env.len();
    while n > 0
        invariant
            n <= env.len(),
            env_wf(env@),
            scope_of(env_v(env@), k@, env.len() as int) == scope_of(env_v(env@), k@, n as int),
        decreases n,
    {
        assert(env_v(env@)[n - 1] == scope_v(env@[n - 1]));
        if let Some(v) = env[n - 1].get(k) {
            return Some(v);
        }
        n = n - 1;
    }
    None
}

/// An empty scope.
pub fn new_scope() -> (r: Table<Value>)
    ensures
        r.wf(),
        scope_v(r) == no_scope(),
{
    let r: Table<Value> = Table::new();
    assert(scope_v(r) =~= no_scope());
    r
}

/// Scopes of which only the outermost is there, and that is empty.
pub fn new_env() -> (r: Vec<Table<Value>>)
    ensures
        env_wf(r@),
        env_v(r@) == seq![no_scope()],
{
    let s = new_scope();
    let mut r: Vec<Table<Value>> = Vec::new();
    r.push(s);
    assert(env_v(r@) =~= seq![no_scope()]);
    r
}

/// Gives a variable of a scope a value.
pub fn declare(s: &mut Table<Value>, k: &str, v: Value)
    requires
        old(s).wf(),
    ensures
        final(s).wf(),
        scope_v(*final(s)) == scope_v(*old(s)).put(k@, v@),
{
    let ghost before = *s;
    s.insert(k, v);
    assert(scope_v(*s) =~= scope_v(before).put(k@, v@));
}

/// Opens a scope.
pub fn push_scope(env: &mut Vec<Table<Value>>, s: Table<Value>)
    requires
        env_wf(old(env)@),
        s.wf(),
    ensures
        env_wf(final(env)@),
        env_v(final(env)@) == env_v(old(env)@).push(scope_v(s)),
{
    let ghost before = env@;
    env.push(s);
    assert(env_v(env@) =~= env_v(before).push(scope_v(s)));
}

/// The scopes without the innermost one.
pub open spec fn closed_scope(env: Seq<ScopeV>) -> Seq<ScopeV> {
    if env.len() > 0 {
        env.drop_last()
    } else {
        env
    }
}

/// Closes the innermost scope.
pub fn pop_scope(env: &mut Vec<Table<Value>>)
    requires
        env_wf(old(env)@),
    ensures
        env_wf(final(env)@),
        env_v(final(env)@) == closed_scope(env_v(old(env)@)),
{
    let ghost before = env@;
    let _ = env.pop();
    assert(env_v(env@) =~= closed_scope(env_v(before)));
}

/// Gives a variable a value: in the innermost scope that has it, else in the innermost.
pub fn set_or_declare(env: &mut Vec<Table<Value>>, k: &str, v: Value)
    requires
        env_wf(old(env)@),
    ensures
        env_wf(final(env)@),
        env_v(final(env)@) == env_set(env_v(old(env)@), k@, v@),
{
    let ghost before = env@;
    let len: usize = env.len();
    if len == 0 {
        assert(env_v(env@) =~= env_set(env_v(before), k@, v@));
        return;
    }
    let mut n: usize = len;
    let mut at: usize = len - 1;
    while n > 0
        invariant_except_break
            n <= len,
            len == env.len(),
            len > 0,
            at == len - 1,
            env@ == before,
            env_wf(env@),
            scope_of(env_v(before), k@, len as int) == scope_of(env_v(before), k@, n as int),
        ensures
            at < len,
            env@ == before,
            len == env.len(),
            env_wf(env@),
            at == (match scope_of(env_v(before), k@, len as int) {
                Some(i) => i,
                None => len - 1,
            }),
        decreases n,
    {
        assert(env_v(env@)[n - 1] == scope_v(env@[n - 1]));
        if env[n - 1].contains_key(k) {
            at = n - 1;
            break;
        }
        n = n - 1;
    }
    let mut s = new_scope();
    std::mem::swap(&mut s, &mut env[at]);
    declare(&mut s, k, v);
    env.set(at, s);
    assert(env_v(env@) =~= env_set(env_v(before), k@, v@));
}

/// The pieces of the variables of a scope from the `i`-th on that are not among those
/// seen, each on a line of its own, and all variables seen.
pub open spec fn scope_lines(s: ScopeV, i: int, seen: Seq<Seq<char>>, ps: Seq<PieceV>) -> (
    Seq<Seq<char>>,
    Seq<PieceV>,
)
    decreases s.order.len() - i,
{
    if i < 0 || i >= s.order.len() {
        (seen, ps)
    } else {
        let k = s.order[i];
        if seen.contains(k) {
            scope_lines(s, i + 1, seen, ps)
        } else {
            let v = s.vals[k];
            scope_lines(
                s,
                i + 1,
                seen.push(k),
                ps.push(PieceV::Text("\n"@ + k + " : "@ + v.type_text() + " = "@)) + shown(v),
            )
        }
    }
}

/// The pieces of the variables of the first `n` scopes, from the innermost outwards.
pub open spec fn env_lines(env: Seq<ScopeV>, n: int, seen: Seq<Seq<char>>, ps: Seq<PieceV>) -> Seq<PieceV>
    decreases n,
{
    if n <= 0 || n > env.len() {
        ps
    } else {
        let (seen2, ps2) = scope_lines(env[n - 1], 0, seen, ps);
        env_lines(env, n - 1, seen2, ps2)
    }
}

fn has_text(v: &Vec<String>, k: &str) -> (r: bool)
    ensures
        r == strs(v@).contains(k@),
{
    let mut i: usize = 0;
    while i < v.len()
        invariant
            i <= v.len(),
            forall|j: int| 0 <= j < i ==> (#[trigger] v@[j])@ != k@,
        decreases v.len() - i,
    {
        if crate::text::eq(v[i].as_str(), k) {
            assert(strs(v@)[i as int] == k@);
            return true;
        }
        i = i + 1;
    }
    assert forall|j: int| 0 <= j < strs(v@).len() implies strs(v@)[j] != k@ by {
        assert(strs(v@)[j] == v@[j]@);
    }
    false
}

fn list_scope(s: &Table<Value>, seen: &mut Vec<String>, ps: &mut Vec<Piece>)
    requires
        s.wf(),
    ensures
        (strs(final(seen)@), pieces_v(final(ps)@)) == scope_lines(
            scope_v(*s),
            0,
            strs(old(seen)@),
            pieces_v(old(ps)@),
        ),
{
    let n: usize = s.len();
    let ghost goal = scope_lines(scope_v(*s), 0, strs(seen@), pieces_v(ps@));
    let mut i: usize = 0;
    while i < n
        invariant
            i <= n,
            n == s.order().len(),
            s.wf(),
            goal == scope_lines(scope_v(*s), i as int, strs(seen@), pieces_v(ps@)),
        decreases n - i,
    {
        let k = s.key_at(i);
        let v = s.val_at(i);
        assert(scope_v(*s).vals[k@] == v@);
        if !has_text(seen, k.as_str()) {
            let ghost was = seen@;
            let ghost before = ps@;
            seen.push(k.clone());
            assert(strs(seen@) =~= strs(was).push(k@));
            let t = cat5("\n", k.as_str(), " : ", v.kind_name(), " = ");
            ps.push(Piece::Text(t));
            assert(pieces_v(ps@) =~= pieces_v(before).push(PieceV::Text(t@)));
            v.pieces(ps);
        }
        i = i + 1;
    }
}

/// Adds the pieces of all variables, from the innermost scope outwards.
pub fn list_env(env: &Vec<Table<Value>>, ps: &mut Vec<Piece>)
    requires
        env_wf(env@),
    ensures
        pieces_v(final(ps)@) == env_lines(env_v(env@), env.len() as int, Seq::empty(), pieces_v(old(ps)@)),
{
    let mut seen: Vec<String> = Vec::new();
    let mut n: usize = env.len();
    let ghost goal = env_lines(env_v(env@), env.len() as int, Seq::empty(), pieces_v(ps@));
    assert(strs(seen@) =~= Seq::empty());
    while n > 0
        invariant
            n <= env.len(),
            env_wf(env@),
            goal == env_lines(env_v(env@), n as int, strs(seen@), pieces_v(ps@)),
        decreases n,
    {
        assert(env_v(env@)[n - 1] == scope_v(env@[n - 1]));
        list_scope(&env[n - 1], &mut seen, ps);
        n = n - 1;
    }
}

/// A variable that was given a value has it, and every other variable keeps its own.
pub proof fn law_set_get(env: Seq<ScopeV>, k: Seq<char>, v: ValueV, other: Seq<char>)
    requires
        env.len() > 0,
    ensures
        env_get(env_set(env, k, v), k) == Some(v),
        other != k ==> env_get(env_set(env, k, v), other) == env_get(env, other),
{
    lemma_scope_of(env, k, env.len() as int);
    let env2 = env_set(env, k, v);
    let i = match scope_of(env, k, env.len() as int) {
        Some(i) => i,
        None => env.len() - 1,
    };
    lemma_scope_is(env2, k, env.len() as int, i);
    if other != k {
        lemma_scope_other(env, env2, other, env.len() as int);
        lemma_scope_of(env, other, env.len() as int);
    }
}

/// The innermost scope that has a variable has it, and no scope further inside does.
pub proof fn lemma_scope_of(env: Seq<ScopeV>, k: Seq<char>, n: int)
    requires
        0 <= n <= env.len(),
    ensures
        match scope_of(env, k, n) {
            Some(i) => 0 <= i < n && env[i].vals.dom().contains(k) && forall|j: int|
                i < j < n ==> !(#[trigger] env[j]).vals.dom().contains(k),
            None => forall|j: int| 0 <= j < n ==> !(#[trigger] env[j]).vals.dom().contains(k),
        },
    decreases n,
{
    if n > 0 && !env[n - 1].vals.dom().contains(k) {
        lemma_scope_of(env, k, n - 1);
    }
}

proof fn lemma_scope_is(env: Seq<ScopeV>, k: Seq<char>, n: int, i: int)
    requires
        0 <= i < n <= env.len(),
        env[i].vals.dom().contains(k),
        forall|j: int| i < j < n ==> !(#[trigger] env[j]).vals.dom().contains(k),
    ensures
        scope_of(env, k, n) == Some(i),
{
    lemma_scope_of(env, k, n);
}

proof fn lemma_scope_other(a: Seq<ScopeV>, b: Seq<ScopeV>, k: Seq<char>, n: int)
    requires
        a.len() == b.len(),
        0 <= n <= a.len(),
        forall|j: int|
            0 <= j < a.len() ==> (#[trigger] a[j]).vals.dom().contains(k) == b[j].vals.dom().contains(k),
    ensures
        scope_of(a, k, n) == scope_of(b, k, n),
    decreases n,
{
    if n > 0 {
        lemma_scope_other(a, b, k, n - 1);
    }
}

} // verus!
