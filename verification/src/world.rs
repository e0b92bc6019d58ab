//! The world state: a hierarchical key-value store addressed by paths.
//!
//! Every inner node is a map from keys to values; a path names a value by
//! the keys that lead to it from the root. Writing through a value that is
//! not a map replaces it by a map; deleting a key removes the maps that the
//! deletion leaves empty along the path.
use vstd::prelude::*;
use crate::ast::{Path, strings_view};
use crate::text::str_eq;

verus! {

/// A value of the store: a leaf holding a `V`, or a map from keys to values.
#[derive(Debug)]
pub enum StateValue<V> {
    Leaf(V),
    Table(Vec<(String, StateValue<V>)>),
}

/// The model of a store value.
pub enum Tree<V> {
    Leaf(V),
    Node(Map<Seq<char>, Tree<V>>),
}

/// The model of a store value.
pub open spec fn tree_of<V>(t: StateValue<V>) -> Tree<V>
    decreases t, 1int,
{
    match t {
        StateValue::Leaf(v) => Tree::Leaf(v),
        StateValue::Table(es) => Tree::Node(entries_tree(es@)),
    }
}

/// The map a list of entries describes.
pub open spec fn entries_tree<V>(es: Seq<(String, StateValue<V>)>) -> Map<Seq<char>, Tree<V>>
    decreases es, 0int,
{
    if es.len() == 0 {
        Map::empty()
    } else {
        entries_tree(es.drop_last()).insert(es.last().0@, tree_of(es.last().1))
    }
}

/// Keys are distinct in every map of the value.
pub open spec fn wf<V>(t: StateValue<V>) -> bool
    decreases t, 1int,
{
    match t {
        StateValue::Leaf(_) => true,
        StateValue::Table(es) => wf_entries(es@),
    }
}

/// Keys are distinct among the entries, and every entry is well formed.
pub open spec fn wf_entries<V>(es: Seq<(String, StateValue<V>)>) -> bool
    decreases es, 0int,
{
    if es.len() == 0 {
        true
    } else {
        wf_entries(es.drop_last()) && wf(es.last().1)
            && forall|i: int| 0 <= i < es.len() - 1 ==> #[trigger] es[i].0@ != es.last().0@
    }
}

// ---------------------------------------------------------------------------
// The store's operations on the model
// ---------------------------------------------------------------------------

/// The value at `path`, if the maps along it hold its keys.
pub open spec fn tree_get<V>(t: Tree<V>, path: Seq<Seq<char>>) -> Option<Tree<V>>
    decreases path.len(),
{
    if path.len() == 0 {
        Some(t)
    } else {
        match t {
            Tree::Node(m) => if m.contains_key(path[0]) {
                tree_get(m[path[0]], path.drop_first())
            } else {
                None
            },
            Tree::Leaf(_) => None,
        }
    }
}

/// The map a value holds, or the empty map for a leaf.
pub open spec fn as_map<V>(t: Tree<V>) -> Map<Seq<char>, Tree<V>> {
    match t {
        Tree::Node(m) => m,
        Tree::Leaf(_) => Map::empty(),
    }
}

/// Writes `v` at `path`, turning every value along it into a map.
pub open spec fn tree_set<V>(t: Tree<V>, path: Seq<Seq<char>>, v: Tree<V>) -> Tree<V>
    decreases path.len(),
{
    if path.len() == 0 {
        t
    } else {
        let m = as_map(t);
        if path.len() == 1 {
            Tree::Node(m.insert(path[0], v))
        } else {
            let child = if m.contains_key(path[0]) { m[path[0]] } else { Tree::Node(Map::empty()) };
            Tree::Node(m.insert(path[0], tree_set(child, path.drop_first(), v)))
        }
    }
}

/// Whether a value is an empty map.
pub open spec fn is_empty_map<V>(t: Tree<V>) -> bool {
    match t {
        Tree::Node(m) => m.dom().is_empty(),
        Tree::Leaf(_) => false,
    }
}

/// Deletes the value at `path`, removing the maps along it that the
/// deletion leaves empty.
pub open spec fn tree_del<V>(t: Tree<V>, path: Seq<Seq<char>>) -> Tree<V>
    decreases path.len(),
{
    if path.len() == 0 {
        t
    } else {
        match t {
            Tree::Leaf(_) => t,
            Tree::Node(m) => if path.len() == 1 {
                Tree::Node(m.remove(path[0]))
            } else if m.contains_key(path[0]) {
                let c = tree_del(m[path[0]], path.drop_first());
                if is_empty_map(c) {
                    Tree::Node(m.remove(path[0]))
                } else {
                    Tree::Node(m.insert(path[0], c))
                }
            } else {
                t
            },
        }
    }
}

/// Two paths part ways: at some position both have keys, and they differ.
pub open spec fn diverge(p: Seq<Seq<char>>, q: Seq<Seq<char>>) -> bool {
    exists|i: int| 0 <= i < p.len() && i < q.len() && p[i] != q[i]
}


// ---------------------------------------------------------------------------
// Laws
// ---------------------------------------------------------------------------

/// Reading a path gives back the value last written there.
pub proof fn law_get_after_set<V>(t: Tree<V>, p: Seq<Seq<char>>, v: Tree<V>)
    requires
        p.len() > 0,
    ensures
        tree_get(tree_set(t, p, v), p) == Some(v),
    decreases p.len(),
{
    let m = as_map(t);
    if p.len() > 1 {
        let child = if m.contains_key(p[0]) { m[p[0]] } else { Tree::Node(Map::empty()) };
        law_get_after_set(child, p.drop_first(), v);
        let m2 = m.insert(p[0], tree_set(child, p.drop_first(), v));
        assert(tree_set(t, p, v) == Tree::Node(m2));
        assert(tree_get(Tree::Node(m2), p) == tree_get(m2[p[0]], p.drop_first()));
    } else {
        let m2 = m.insert(p[0], v);
        assert(tree_set(t, p, v) == Tree::Node(m2));
        assert(tree_get(Tree::Node(m2), p) == tree_get(m2[p[0]], p.drop_first()));
        assert(p.drop_first().len() == 0);
    }
}

/// Writing a path leaves every path that parts ways with it unchanged.
pub proof fn law_set_preserves_other<V>(t: Tree<V>, p: Seq<Seq<char>>, v: Tree<V>, q: Seq<Seq<char>>)
    requires
        diverge(p, q),
    ensures
        tree_get(tree_set(t, p, v), q) == tree_get(t, q),
    decreases p.len(),
{
    let i = choose|i: int| 0 <= i < p.len() && i < q.len() && p[i] != q[i];
    let m = as_map(t);
    if p[0] != q[0] {
        if p.len() > 1 {
            let child = if m.contains_key(p[0]) { m[p[0]] } else { Tree::Node(Map::empty()) };
            assert(m.insert(p[0], tree_set(child, p.drop_first(), v)).contains_key(q[0]) == m.contains_key(q[0]));
        }
    } else {
        assert(i > 0);
        assert(p.drop_first()[i - 1] != q.drop_first()[i - 1]);
        let child = if m.contains_key(p[0]) { m[p[0]] } else { Tree::Node(Map::empty()) };
        law_set_preserves_other(child, p.drop_first(), v, q.drop_first());
    }
}

/// After deleting a path, reading it finds nothing.
pub proof fn law_get_after_del<V>(t: Tree<V>, p: Seq<Seq<char>>)
    requires
        p.len() > 0,
    ensures
        tree_get(tree_del(t, p), p) is None,
    decreases p.len(),
{
    match t {
        Tree::Leaf(_) => {},
        Tree::Node(m) => {
            if p.len() > 1 && m.contains_key(p[0]) {
                law_get_after_del(m[p[0]], p.drop_first());
            }
        },
    }
}

/// Deleting a path leaves every path that parts ways with it unchanged.
pub proof fn law_del_preserves_other<V>(t: Tree<V>, p: Seq<Seq<char>>, q: Seq<Seq<char>>)
    requires
        diverge(p, q),
    ensures
        tree_get(tree_del(t, p), q) == tree_get(t, q),
    decreases p.len(),
{
    let i = choose|i: int| 0 <= i < p.len() && i < q.len() && p[i] != q[i];
    match t {
        Tree::Leaf(_) => {},
        Tree::Node(m) => {
            if p[0] != q[0] {
            } else {
                assert(i > 0);
                assert(p.drop_first()[i - 1] != q.drop_first()[i - 1]);
                if m.contains_key(p[0]) {
                    law_del_preserves_other(m[p[0]], p.drop_first(), q.drop_first());
                    let c = tree_del(m[p[0]], p.drop_first());
                    if is_empty_map(c) {
                        let cm = as_map(c);
                        assert(!cm.contains_key(q.drop_first()[0]));
                    }
                }
            }
        },
    }
}

// ---------------------------------------------------------------------------
// Entries
// ---------------------------------------------------------------------------

proof fn lemma_entries<V>(es: Seq<(String, StateValue<V>)>)
    requires
        wf_entries(es),
    ensures
        forall|k: Seq<char>| entries_tree(es).contains_key(k) <==> exists|i: int| 0 <= i < es.len() && es[i].0@ == k,
        forall|i: int| 0 <= i < es.len() ==> #[trigger] entries_tree(es)[es[i].0@] == tree_of(es[i].1),
        forall|i: int| 0 <= i < es.len() ==> wf(#[trigger] es[i].1),
        forall|i: int, j: int| 0 <= i < j < es.len() ==> es[i].0@ != es[j].0@,
    decreases es.len(),
{
    if es.len() > 0 {
        lemma_entries(es.drop_last());
        assert forall|k: Seq<char>| entries_tree(es).contains_key(k) <==> exists|i: int| 0 <= i < es.len() && es[i].0@ == k by {
            if entries_tree(es).contains_key(k) {
                if k != es.last().0@ {
                    let i = choose|i: int| 0 <= i < es.drop_last().len() && es.drop_last()[i].0@ == k;
                    assert(es[i].0@ == k);
                } else {
                    assert(es[es.len() - 1].0@ == k);
                }
            }
            if exists|i: int| 0 <= i < es.len() && es[i].0@ == k {
                let i = choose|i: int| 0 <= i < es.len() && es[i].0@ == k;
                if i < es.len() - 1 {
                    assert(es.drop_last()[i].0@ == k);
                }
            }
        }
        assert forall|i: int| 0 <= i < es.len() implies #[trigger] entries_tree(es)[es[i].0@] == tree_of(es[i].1) by {
            if i < es.len() - 1 {
                assert(es.drop_last()[i] == es[i]);
                assert(es[i].0@ != es.last().0@);
            }
        }
        assert forall|i: int| 0 <= i < es.len() implies wf(#[trigger] es[i].1) by {
            if i < es.len() - 1 {
                assert(es.drop_last()[i] == es[i]);
            }
        }
        assert forall|i: int, j: int| 0 <= i < j < es.len() implies es[i].0@ != es[j].0@ by {
            if j < es.len() - 1 {
                assert(es.drop_last()[i] == es[i]);
                assert(es.drop_last()[j] == es[j]);
            }
        }
    }
}

/// Entries with distinct keys, each well formed, are well formed.
proof fn lemma_wf_entries_intro<V>(es: Seq<(String, StateValue<V>)>)
    requires
        forall|i: int| 0 <= i < es.len() ==> wf(#[trigger] es[i].1),
        forall|i: int, j: int| 0 <= i < j < es.len() ==> es[i].0@ != es[j].0@,
    ensures
        wf_entries(es),
    decreases es.len(),
{
    if es.len() > 0 {
        assert forall|i: int| 0 <= i < es.drop_last().len() implies wf(#[trigger] es.drop_last()[i].1) by {
            assert(es.drop_last()[i] == es[i]);
        }
        assert forall|i: int, j: int| 0 <= i < j < es.drop_last().len() implies es.drop_last()[i].0@ != es.drop_last()[j].0@ by {
            assert(es.drop_last()[i] == es[i]);
            assert(es.drop_last()[j] == es[j]);
        }
        lemma_wf_entries_intro(es.drop_last());
        assert(wf(es[es.len() - 1].1));
        assert forall|i: int| 0 <= i < es.len() - 1 implies #[trigger] es[i].0@ != es.last().0@ by {
            assert(es[i].0@ != es[es.len() - 1].0@);
        }
    }
}

/// Appending an entry with a new key adds that key to the map.
proof fn lemma_entries_push<V>(es: Seq<(String, StateValue<V>)>, k: String, x: StateValue<V>)
    requires
        wf_entries(es),
        wf(x),
        forall|i: int| 0 <= i < es.len() ==> #[trigger] es[i].0@ != k@,
    ensures
        wf_entries(es.push((k, x))),
        entries_tree(es.push((k, x))) == entries_tree(es).insert(k@, tree_of(x)),
{
    let es2 = es.push((k, x));
    assert(es2.drop_last() =~= es);
    assert forall|i: int| 0 <= i < es2.len() - 1 implies #[trigger] es2[i].0@ != es2.last().0@ by {
        assert(es2[i] == es[i]);
    }
}

/// Removing entry `j` removes its key from the map.
proof fn lemma_entries_remove<V>(es: Seq<(String, StateValue<V>)>, j: int)
    requires
        wf_entries(es),
        0 <= j < es.len(),
    ensures
        wf_entries(es.remove(j)),
        entries_tree(es.remove(j)) == entries_tree(es).remove(es[j].0@),
{
    lemma_entries(es);
    let es2 = es.remove(j);
    assert forall|i: int| 0 <= i < es2.len() implies wf(#[trigger] es2[i].1) by {
        if i < j { assert(es2[i] == es[i]); } else { assert(es2[i] == es[i + 1]); }
    }
    assert forall|a: int, b: int| 0 <= a < b < es2.len() implies es2[a].0@ != es2[b].0@ by {
        let a2 = if a < j { a } else { a + 1 };
        let b2 = if b < j { b } else { b + 1 };
        assert(es2[a] == es[a2]);
        assert(es2[b] == es[b2]);
    }
    lemma_wf_entries_intro(es2);
    lemma_entries(es2);
    let x = entries_tree(es2);
    let y = entries_tree(es).remove(es[j].0@);
    assert forall|k: Seq<char>| #[trigger] x.contains_key(k) == y.contains_key(k) by {
        if x.contains_key(k) {
            let i = choose|i: int| 0 <= i < es2.len() && es2[i].0@ == k;
            let i2 = if i < j { i } else { i + 1 };
            assert(es2[i] == es[i2]);
        }
        if y.contains_key(k) {
            let i = choose|i: int| 0 <= i < es.len() && es[i].0@ == k;
            assert(i != j);
            let i2 = if i < j { i } else { i - 1 };
            assert(es2[i2] == es[i]);
        }
    }
    assert forall|k: Seq<char>| #[trigger] x.contains_key(k) implies x[k] == y[k] by {
        let i = choose|i: int| 0 <= i < es2.len() && es2[i].0@ == k;
        let i2 = if i < j { i } else { i + 1 };
        assert(es2[i] == es[i2]);
        assert(x[es2[i].0@] == tree_of(es2[i].1));
        assert(entries_tree(es)[es[i2].0@] == tree_of(es[i2].1));
    }
    assert(x =~= y);
}


// ---------------------------------------------------------------------------
// The store
// ---------------------------------------------------------------------------

fn find_key<V>(es: &Vec<(String, StateValue<V>)>, key: &str) -> (r: Option<usize>)
    ensures
        match r {
            Some(j) => j < es@.len() && es@[j as int].0@ == key@,
            None => forall|i: int| 0 <= i < es@.len() ==> es@[i].0@ != key@,
        },
{
    let mut i: usize = 0;
    while i < es.len()
        invariant
            i <= es@.len(),
            forall|j: int| 0 <= j < i ==> es@[j].0@ != key@,
        decreases es@.len() - i,
    {
        if str_eq(es[i].0.as_str(), key) {
            return Some(i);
        }
        i = i + 1;
    }
    None
}

/// The hierarchical store of the world.
#[derive(Debug)]
pub struct WorldState<V> {
    data: StateValue<V>,
}

impl<V> View for WorldState<V> {
    type V = Tree<V>;

    closed spec fn view(&self) -> Tree<V> {
        tree_of(self.data)
    }
}

fn set_rec<V>(node: StateValue<V>, path: &Vec<String>, i: usize, val: StateValue<V>) -> (r: StateValue<V>)
    requires
        wf(node),
        wf(val),
        i < path@.len(),
    ensures
        wf(r),
        r is Table,
        tree_of(r) == tree_set(tree_of(node), strings_view(path@).subrange(i as int, path@.len() as int), tree_of(val)),
    decreases path@.len() - i,
{
    let ghost p = strings_view(path@).subrange(i as int, path@.len() as int);
    let ghost t = tree_of(node);
    let mut es: Vec<(String, StateValue<V>)> = match node {
        StateValue::Table(es) => es,
        StateValue::Leaf(_) => Vec::new(),
    };
    proof {
        lemma_entries(es@);
        assert(as_map(t) == entries_tree(es@));
        assert(p[0] == path@[i as int]@);
        assert(p.drop_first() =~= strings_view(path@).subrange(i + 1, path@.len() as int));
    }
    let key = &path[i];
    match find_key(&es, key.as_str()) {
        Some(j) => {
            let ghost es0 = es@;
            let (k, child) = es.remove(j);
            proof {
                lemma_entries_remove(es0, j as int);
                assert(es@ == es0.remove(j as int));
                assert(entries_tree(es0)[es0[j as int].0@] == tree_of(es0[j as int].1));
                assert forall|x: int| 0 <= x < es@.len() implies #[trigger] es@[x].0@ != k@ by {
                    if x < j { assert(es@[x] == es0[x]); } else { assert(es@[x] == es0[x + 1]); }
                }
            }
            let newv = if i == path.len() - 1 { val } else { set_rec(child, path, i + 1, val) };
            let ghost es1 = es@;
            es.push((k, newv));
            proof {
                lemma_entries_push(es1, k, newv);
                assert(es@ == es1.push((k, newv)));
                assert(entries_tree(es@) =~= entries_tree(es0).insert(key@, tree_of(newv)));
            }
            StateValue::Table(es)
        },
        None => {
            let newv = if i == path.len() - 1 {
                val
            } else {
                set_rec(StateValue::Table(Vec::new()), path, i + 1, val)
            };
            let ghost es1 = es@;
            let k = key.clone();
            proof {
                assert(entries_tree(Seq::<(String, StateValue<V>)>::empty()) =~= Map::<Seq<char>, Tree<V>>::empty());
            }
            es.push((k, newv));
            proof {
                lemma_entries_push(es1, k, newv);
                assert(es@ == es1.push((k, newv)));
            }
            StateValue::Table(es)
        },
    }
}

fn del_rec<V>(node: StateValue<V>, path: &Vec<String>, i: usize) -> (r: StateValue<V>)
    requires
        wf(node),
        i < path@.len(),
    ensures
        wf(r),
        node is Table ==> r is Table,
        tree_of(r) == tree_del(tree_of(node), strings_view(path@).subrange(i as int, path@.len() as int)),
    decreases path@.len() - i,
{
    let ghost p = strings_view(path@).subrange(i as int, path@.len() as int);
    match node {
        StateValue::Leaf(v) => StateValue::Leaf(v),
        StateValue::Table(mut es) => {
            proof {
                lemma_entries(es@);
                assert(p[0] == path@[i as int]@);
                assert(p.drop_first() =~= strings_view(path@).subrange(i + 1, path@.len() as int));
            }
            let key = &path[i];
            match find_key(&es, key.as_str()) {
                Some(j) => {
                    let ghost es0 = es@;
                    let (k, child) = es.remove(j);
                    proof {
                        lemma_entries_remove(es0, j as int);
                        assert(es@ == es0.remove(j as int));
                        assert(entries_tree(es0)[es0[j as int].0@] == tree_of(es0[j as int].1));
                        assert forall|x: int| 0 <= x < es@.len() implies #[trigger] es@[x].0@ != k@ by {
                            if x < j { assert(es@[x] == es0[x]); } else { assert(es@[x] == es0[x + 1]); }
                        }
                    }
                    if i == path.len() - 1 {
                        return StateValue::Table(es);
                    }
                    let c2 = del_rec(child, path, i + 1);
                    let empty = match &c2 {
                        StateValue::Table(ces) => ces.len() == 0,
                        StateValue::Leaf(_) => false,
                    };
                    proof {
                        match &c2 {
                            StateValue::Table(ces) => {
                                lemma_entries(ces@);
                                if ces@.len() == 0 {
                                    assert(entries_tree(ces@).dom() =~= Set::<Seq<char>>::empty());
                                } else {
                                    assert(entries_tree(ces@).contains_key(ces@[0].0@));
                                }
                            },
                            StateValue::Leaf(_) => {},
                        }
                        assert(empty == is_empty_map(tree_of(c2)));
                    }
                    if empty {
                        StateValue::Table(es)
                    } else {
                        let ghost es1 = es@;
                        es.push((k, c2));
                        proof {
                            lemma_entries_push(es1, k, c2);
                            assert(es@ == es1.push((k, c2)));
                            assert(entries_tree(es@) =~= entries_tree(es0).insert(key@, tree_of(c2)));
                        }
                        StateValue::Table(es)
                    }
                },
                None => {
                    proof {
                        assert(!entries_tree(es@).contains_key(p[0]));
                        assert(entries_tree(es@).remove(p[0]) =~= entries_tree(es@));
                    }
                    StateValue::Table(es)
                },
            }
        },
    }
}

impl<V> WorldState<V> {
    #[verifier::type_invariant]
    closed spec fn inv(self) -> bool {
        wf(self.data) && self.data is Table
    }

    /// An empty store.
    pub fn new() -> (r: WorldState<V>)
        ensures
            r@ == Tree::<V>::Node(Map::empty()),
    {
        let r = WorldState { data: StateValue::Table(Vec::new()) };
        proof {
            assert(entries_tree(Seq::<(String, StateValue<V>)>::empty()) =~= Map::<Seq<char>, Tree<V>>::empty());
        }
        r
    }

    /// The value at `path`.
    pub fn get(&self, path: &Path) -> (r: Option<&StateValue<V>>)
        ensures
            match r {
                Some(x) => tree_get(self@, path@) == Some(tree_of(*x)),
                None => tree_get(self@, path@) is None,
            },
    {
        proof { use_type_invariant(self); }
        let mut cur: &StateValue<V> = &self.data;
        let mut i: usize = 0;
        proof { assert(path@.subrange(0, path@.len() as int) =~= path@); }
        while i < path.0.len()
            invariant
                i <= path@.len(),
                path@.len() == path.0@.len(),
                wf(*cur),
                tree_get(self@, path@) == tree_get(tree_of(*cur), path@.subrange(i as int, path@.len() as int)),
            decreases path@.len() - i,
        {
            let ghost sub = path@.subrange(i as int, path@.len() as int);
            proof {
                assert(sub[0] == path.0@[i as int]@);
                assert(sub.drop_first() =~= path@.subrange(i + 1, path@.len() as int));
            }
            match cur {
                StateValue::Table(es) => {
                    proof { lemma_entries(es@); }
                    match find_key(es, path.0[i].as_str()) {
                        Some(j) => {
                            cur = &es[j].1;
                        },
                        None => {
                            return None;
                        },
                    }
                },
                StateValue::Leaf(_) => {
                    return None;
                },
            }
            i = i + 1;
        }
        proof { assert(path@.subrange(path@.len() as int, path@.len() as int).len() == 0); }
        Some(cur)
    }

    /// Whether a value is stored at `path`.
    pub fn has_path(&self, path: &Path) -> (r: bool)
        ensures
            r == tree_get(self@, path@) is Some,
    {
        self.get(path).is_some()
    }

    /// Writes `val` at `path`; an empty path writes nothing.
    pub fn set(&mut self, path: &Path, val: StateValue<V>)
        requires
            wf(val),
        ensures
            final(self)@ == tree_set(old(self)@, path@, tree_of(val)),
    {
        proof { use_type_invariant(&*self); }
        if path.0.len() == 0 {
            return;
        }
        let mut data = StateValue::Table(Vec::new());
        std::mem::swap(&mut data, &mut self.data);
        let updated = set_rec(data, &path.0, 0, val);
        proof { assert(strings_view(path.0@).subrange(0, path@.len() as int) =~= path@); }
        self.data = updated;
    }

    /// Deletes the value at `path`; an empty path deletes nothing.
    pub fn del(&mut self, path: &Path)
        ensures
            final(self)@ == tree_del(old(self)@, path@),
    {
        proof { use_type_invariant(&*self); }
        if path.0.len() == 0 {
            return;
        }
        let mut data = StateValue::Table(Vec::new());
        std::mem::swap(&mut data, &mut self.data);
        let updated = del_rec(data, &path.0, 0);
        proof { assert(strings_view(path.0@).subrange(0, path@.len() as int) =~= path@); }
        self.data = updated;
    }
}

} // verus!
