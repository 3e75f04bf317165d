//! A prefix tree over copyable symbols.
//!
//! Each node keeps its children as an association list in insertion order;
//! a lookup follows the first child whose symbol matches. A word is
//! *contained* when following it ends on a node marked as a word end, and
//! *partially contained* when following it ends anywhere in the tree.
//!
//! The contracts hold whenever the symbol type's `==` agrees with
//! structural equality (`vstd::laws_eq::obeys_concrete_eq`), which every
//! primitive type satisfies.

use vstd::prelude::*;
use vstd::laws_eq::obeys_concrete_eq;
use core::hash::Hash;

verus! {

/// A prefix-tree node: children keyed by symbol, and whether a stored
/// word ends here.
pub struct Trie<T> {
    pub prefixes: Vec<(T, Trie<T>)>,
    pub is_leaf: bool,
}

/// Index of the first child keyed by `letter`, scanning from `i`.
pub open spec fn spec_find_idx<T>(children: Seq<(T, Trie<T>)>, letter: T, i: int) -> Option<int>
    decreases children.len() - i,
{
    if i >= children.len() {
        None
    } else if children[i].0 == letter {
        Some(i)
    } else {
        spec_find_idx(children, letter, i + 1)
    }
}

/// Whether following `word[k..]` from `t` ends on a word-end node.
pub open spec fn spec_contains_from<T>(t: Trie<T>, word: Seq<T>, k: int) -> bool
    decreases word.len() - k,
{
    if k >= word.len() {
        t.is_leaf
    } else {
        match spec_find_idx(t.prefixes@, word[k], 0) {
            Some(i) => spec_contains_from(t.prefixes@[i].1, word, k + 1),
            None => false,
        }
    }
}

/// Whether `word` is stored in the tree.
pub open spec fn spec_contains<T>(t: Trie<T>, word: Seq<T>) -> bool {
    spec_contains_from(t, word, 0)
}

/// Whether following `word[k..]` from `t` stays inside the tree.
pub open spec fn spec_contains_partial_from<T>(t: Trie<T>, word: Seq<T>, k: int) -> bool
    decreases word.len() - k,
{
    if k >= word.len() {
        true
    } else {
        match spec_find_idx(t.prefixes@, word[k], 0) {
            Some(i) => spec_contains_partial_from(t.prefixes@[i].1, word, k + 1),
            None => false,
        }
    }
}

/// Whether `word` is a prefix of some stored word (or a stored word).
pub open spec fn spec_contains_partial<T>(t: Trie<T>, word: Seq<T>) -> bool {
    spec_contains_partial_from(t, word, 0)
}

/// `t` is exactly the bare chain spelling `word[k..]`, ending on a
/// word-end node.
pub open spec fn spec_is_path<T>(t: Trie<T>, word: Seq<T>, k: int) -> bool
    decreases word.len() - k,
{
    if k >= word.len() {
        t.is_leaf && t.prefixes@.len() == 0
    } else {
        &&& !t.is_leaf
        &&& t.prefixes@.len() == 1
        &&& t.prefixes@[0].0 == word[k]
        &&& spec_is_path(t.prefixes@[0].1, word, k + 1)
    }
}

/// How inserting `word[k..]` rewrites a node: past the word's end the node
/// is marked a word end; on a matching child only that child changes,
/// recursively; with no matching child a fresh chain spelling the rest of
/// the word is appended.
pub open spec fn spec_inserted<T>(t_old: Trie<T>, t_new: Trie<T>, word: Seq<T>, k: int) -> bool
    decreases word.len() - k,
{
    if k >= word.len() {
        t_new.is_leaf && t_new.prefixes@ == t_old.prefixes@
    } else {
        match spec_find_idx(t_old.prefixes@, word[k], 0) {
            Some(i) => {
                &&& t_new.is_leaf == t_old.is_leaf
                &&& t_new.prefixes@.len() == t_old.prefixes@.len()
                &&& forall|j: int|
                    0 <= j < t_old.prefixes@.len() && j != i ==> t_new.prefixes@[j]
                        == t_old.prefixes@[j]
                &&& t_new.prefixes@[i].0 == t_old.prefixes@[i].0
                &&& spec_inserted(t_old.prefixes@[i].1, t_new.prefixes@[i].1, word, k + 1)
            },
            None => {
                &&& t_new.is_leaf == t_old.is_leaf
                &&& t_new.prefixes@.len() == t_old.prefixes@.len() + 1
                &&& forall|j: int|
                    0 <= j < t_old.prefixes@.len() ==> t_new.prefixes@[j] == t_old.prefixes@[j]
                &&& t_new.prefixes@.last().0 == word[k]
                &&& spec_is_path(t_new.prefixes@.last().1, word, k + 1)
            },
        }
    }
}

/// Scanning for a symbol lands on the same index in any two child lists
/// that agree on every key.
proof fn lemma_find_idx_same_keys<T>(
    c1: Seq<(T, Trie<T>)>,
    c2: Seq<(T, Trie<T>)>,
    letter: T,
    i: int,
)
    requires
        0 <= i,
        c1.len() == c2.len(),
        forall|j: int| 0 <= j < c1.len() ==> #[trigger] c1[j].0 == c2[j].0,
    ensures
        spec_find_idx(c1, letter, i) == spec_find_idx(c2, letter, i),
    decreases c1.len() - i,
{
    if i < c1.len() && !(c1[i].0 == letter) {
        lemma_find_idx_same_keys(c1, c2, letter, i + 1);
    }
}

/// Appending a child keyed by a symbol no earlier child carries makes the
/// scan land on it.
proof fn lemma_find_idx_append<T>(c: Seq<(T, Trie<T>)>, entry: (T, Trie<T>), letter: T, i: int)
    requires
        0 <= i <= c.len(),
        spec_find_idx(c, letter, i) is None,
        entry.0 == letter,
    ensures
        spec_find_idx(c.push(entry), letter, i) == Some(c.len() as int),
    decreases c.len() - i,
{
    if i < c.len() {
        assert(c.push(entry)[i] == c[i]);
        lemma_find_idx_append(c, entry, letter, i + 1);
    } else {
        assert(c.push(entry)[i] == entry);
    }
}

/// A bare chain spelling a word's suffix contains that suffix.
proof fn lemma_is_path_contains<T>(t: Trie<T>, word: Seq<T>, k: int)
    requires
        spec_is_path(t, word, k),
    ensures
        spec_contains_from(t, word, k),
    decreases word.len() - k,
{
    if k < word.len() {
        lemma_is_path_contains(t.prefixes@[0].1, word, k + 1);
    }
}

proof fn lemma_inserted_contains_from<T>(t_old: Trie<T>, t_new: Trie<T>, word: Seq<T>, k: int)
    requires
        spec_inserted(t_old, t_new, word, k),
    ensures
        spec_contains_from(t_new, word, k),
    decreases word.len() - k,
{
    if k < word.len() {
        match spec_find_idx(t_old.prefixes@, word[k], 0) {
            Some(i) => {
                lemma_find_idx_same_keys(t_old.prefixes@, t_new.prefixes@, word[k], 0);
                lemma_inserted_contains_from(
                    t_old.prefixes@[i].1,
                    t_new.prefixes@[i].1,
                    word,
                    k + 1,
                );
            },
            None => {
                lemma_find_idx_same_keys(
                    t_old.prefixes@,
                    t_new.prefixes@.drop_last(),
                    word[k],
                    0,
                );
                assert(t_new.prefixes@ =~= t_new.prefixes@.drop_last().push(
                    t_new.prefixes@.last(),
                ));
                lemma_find_idx_append(
                    t_new.prefixes@.drop_last(),
                    t_new.prefixes@.last(),
                    word[k],
                    0,
                );
                lemma_is_path_contains(t_new.prefixes@.last().1, word, k + 1);
            },
        }
    }
}

/// A word just inserted is contained: whatever tree the insertion started
/// from, the rewritten tree stores the word.
pub proof fn lemma_inserted_contains<T>(t_old: Trie<T>, t_new: Trie<T>, word: Seq<T>)
    requires
        spec_inserted(t_old, t_new, word, 0),
    ensures
        spec_contains(t_new, word),
{
    lemma_inserted_contains_from(t_old, t_new, word, 0);
}

impl<T: Copy + Eq + Hash> Trie<T> {
    /// An empty tree: no children, no word ends here.
    pub fn new() -> (t: Self)
        ensures
            t.prefixes@.len() == 0,
            !t.is_leaf,
    {
        Trie { prefixes: Vec::new(), is_leaf: false }
    }

    /// Whether a stored word ends at this node.
    pub fn is_leaf(&self) -> (r: bool)
        ensures
            r == self.is_leaf,
    {
        self.is_leaf
    }

    /// First child keyed by `letter`, if any.
    fn find_idx(children: &Vec<(T, Trie<T>)>, letter: T) -> (r: Option<usize>)
        ensures
            r matches Some(i) ==> i < children@.len(),
            obeys_concrete_eq::<T>() ==> match r {
                Some(i) => spec_find_idx(children@, letter, 0) == Some(i as int),
                None => spec_find_idx(children@, letter, 0) is None,
            },
    {
        let n = children.len();
        let mut i: usize = 0;
        while i < n
            invariant
                n == children@.len(),
                i <= n,
                obeys_concrete_eq::<T>() ==> spec_find_idx(children@, letter, 0) == spec_find_idx(
                    children@,
                    letter,
                    i as int,
                ),
            decreases n - i,
        {
            let hit = children[i].0 == letter;
            proof {
                if obeys_concrete_eq::<T>() {
                    reveal(vstd::laws_eq::obeys_concrete_eq);
                    assert(hit == (children@[i as int].0 == letter));
                }
            }
            if hit {
                return Some(i);
            }
            i = i + 1;
        }
        None
    }

    /// Store `word` in the tree.
    pub fn insert(&mut self, word: &[T])
        ensures
            obeys_concrete_eq::<T>() ==> spec_inserted(*old(self), *final (self), word@, 0),
    {
        self.insert_from(word, 0);
    }

    /// Store the suffix `word[k..]` below this node.
    fn insert_from(&mut self, word: &[T], k: usize)
        requires
            k <= word@.len(),
        ensures
            obeys_concrete_eq::<T>() ==> spec_inserted(*old(self), *final (self), word@, k as int),
        decreases word@.len() - k,
    {
        if k == word.len() {
            self.is_leaf = true;
            return ;
        }
        let letter = word[k];
        match Self::find_idx(&self.prefixes, letter) {
            Some(i) => {
                let mut entry = self.prefixes.remove(i);
                entry.1.insert_from(word, k + 1);
                let ghost key = entry.0;
                let ghost child = entry.1;
                self.prefixes.insert(i, entry);
                proof {
                    if obeys_concrete_eq::<T>() {
                        assert(self.prefixes@ =~= old(self).prefixes@.update(
                            i as int,
                            (key, child),
                        ));
                    }
                }
            },
            None => {
                let mut child = Trie::new();
                child.insert_from(word, k + 1);
                self.prefixes.push((letter, child));
            },
        }
    }

    /// Whether `word` is stored in the tree.
    pub fn contains(&self, word: &[T]) -> (r: bool)
        ensures
            obeys_concrete_eq::<T>() ==> r == spec_contains(*self, word@),
    {
        self.contains_from(word, 0)
    }

    /// Whether the suffix `word[k..]` is stored below this node.
    fn contains_from(&self, word: &[T], k: usize) -> (r: bool)
        requires
            k <= word@.len(),
        ensures
            obeys_concrete_eq::<T>() ==> r == spec_contains_from(*self, word@, k as int),
        decreases word@.len() - k,
    {
        if k == word.len() {
            return self.is_leaf;
        }
        match Self::find_idx(&self.prefixes, word[k]) {
            Some(i) => self.prefixes[i].1.contains_from(word, k + 1),
            None => false,
        }
    }

    /// Whether `word` is a prefix of some stored word.
    pub fn contains_partial(&self, word: &[T]) -> (r: bool)
        ensures
            obeys_concrete_eq::<T>() ==> r == spec_contains_partial(*self, word@),
    {
        self.contains_partial_from(word, 0)
    }

    /// Whether following `word[k..]` from this node stays inside the tree.
    fn contains_partial_from(&self, word: &[T], k: usize) -> (r: bool)
        requires
            k <= word@.len(),
        ensures
            obeys_concrete_eq::<T>() ==> r == spec_contains_partial_from(*self, word@, k as int),
        decreases word@.len() - k,
    {
        if k == word.len() {
            return true;
        }
        match Self::find_idx(&self.prefixes, word[k]) {
            Some(i) => self.prefixes[i].1.contains_partial_from(word, k + 1),
            None => false,
        }
    }
}

} // verus!
