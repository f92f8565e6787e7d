//! Tables of texts.

use vstd::prelude::*;

use crate::table::Table;

verus! {

/// A table of texts: the keys in the order in which they came, and the text of each.
#[verifier::ext_equal]
pub struct TextsV {
    pub order: Seq<Seq<char>>,
    pub vals: Map<Seq<char>, Seq<char>>,
}

/// The mathematical form of a table of texts.
pub open spec fn texts_v(t: Table<String>) -> TextsV {
    TextsV { order: t.order(), vals: t@.map_values(|s: String| s@) }
}

impl TextsV {
    /// The text of a key.
    pub open spec fn get(self, k: Seq<char>) -> Option<Seq<char>> {
        if self.vals.dom().contains(k) {
            Some(self.vals[k])
        } else {
            None
        }
    }

    /// The table with a key's text.
    pub open spec fn put(self, k: Seq<char>, v: Seq<char>) -> TextsV {
        TextsV {
            order: if self.vals.dom().contains(k) {
                self.order
            } else {
                self.order.push(k)
            },
            vals: self.vals.insert(k, v),
        }
    }

    /// The table without a key.
    pub open spec fn without(self, k: Seq<char>) -> TextsV {
        if self.vals.dom().contains(k) {
            TextsV { order: self.order.remove(self.order.index_of(k)), vals: self.vals.remove(k) }
        } else {
            self
        }
    }

    /// The keys and their texts, in order.
    pub open spec fn pairs(self) -> Seq<(Seq<char>, Seq<char>)> {
        Seq::new(self.order.len(), |i: int| (self.order[i], self.vals[self.order[i]]))
    }
}

/// The empty table of texts.
pub open spec fn no_texts() -> TextsV {
    TextsV { order: Seq::empty(), vals: Map::empty() }
}

/// An empty table of texts.
pub fn empty() -> (r: Table<String>)
    ensures
        r.wf(),
        texts_v(r) == no_texts(),
{
    let r: Table<String> = Table::new();
    assert(texts_v(r) =~= no_texts());
    r
}

/// Gives a key a text.
pub fn put(t: &mut Table<String>, k: &str, v: &str)
    requires
        old(t).wf(),
    ensures
        final(t).wf(),
        texts_v(*final(t)) == texts_v(*old(t)).put(k@, v@),
{
    let ghost before = *t;
    t.insert(k, v.to_owned());
    assert(texts_v(*t) =~= texts_v(before).put(k@, v@));
}

/// Takes a key out, and says whether it was there.
pub fn take(t: &mut Table<String>, k: &str) -> (r: bool)
    requires
        old(t).wf(),
    ensures
        final(t).wf(),
        texts_v(*final(t)) == texts_v(*old(t)).without(k@),
        r == (texts_v(*old(t)).get(k@) is Some),
{
    let ghost before = *t;
    let r = t.remove(k).is_some();
    assert(texts_v(*t) =~= texts_v(before).without(k@));
    r
}

/// The text of a key.
pub fn get<'a>(t: &'a Table<String>, k: &str) -> (r: Option<&'a String>)
    requires
        t.wf(),
    ensures
        match r {
            Some(s) => texts_v(*t).get(k@) == Some(s@),
            None => texts_v(*t).get(k@) is None,
        },
{
    t.get(k)
}

/// A key that was given a text has it, and every other key keeps its own.
pub proof fn law_put_get(t: TextsV, k: Seq<char>, v: Seq<char>, other: Seq<char>)
    ensures
        t.put(k, v).get(k) == Some(v),
        other != k ==> t.put(k, v).get(other) == t.get(other),
{
}

/// A key that was taken out is gone, and every other key keeps its text.
pub proof fn law_without(t: TextsV, k: Seq<char>, other: Seq<char>)
    ensures
        t.without(k).get(k) is None,
        other != k ==> t.without(k).get(other) == t.get(other),
{
}

} // verus!
