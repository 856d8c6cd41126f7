//! A trie over characters. Each node keeps, in the order of insertion, the
//! values whose key ends at it.

use vstd::prelude::*;
use crate::chars::CharSource;

verus! {

/// The values that a sequence of references points to.
pub open spec fn pointed<T>(refs: Seq<&T>) -> Seq<T> {
    Seq::new(refs.len(), |i: int| *refs[i])
}

/// Whether `key` begins with `path`.
pub open spec fn begins(key: Seq<char>, path: Seq<char>) -> bool {
    path.len() <= key.len() && key.take(path.len() as int) == path
}

/// A sequence with one more element holds what it held, and that element.
proof fn lemma_insert_to_set(s: Seq<char>, i: int, c: char)
    requires
        0 <= i <= s.len(),
    ensures
        s.insert(i, c).to_set() == s.to_set().insert(c),
{
    let t = s.insert(i, c);
    assert forall|x: char| t.to_set().contains(x) <==> s.to_set().insert(c).contains(x) by {
        if t.contains(x) {
            let j = choose|j: int| 0 <= j < t.len() && t[j] == x;
            if j < i {
                assert(s[j] == x);
            } else if j > i {
                assert(s[j - 1] == x);
            }
        }
        if s.contains(x) {
            let j = choose|j: int| 0 <= j < s.len() && s[j] == x;
            assert(t[if j < i { j } else { j + 1 }] == x);
        }
        if x == c {
            assert(t[i] == x);
        }
    }
    assert(t.to_set() =~= s.to_set().insert(c));
}

/// A node of the trie: the character that leads to it, its children in
/// ascending order of their characters, and the values stored at it.
pub struct Node<T> {
    c: char,
    children: Vec<Node<T>>,
    matches: Vec<T>,
}

impl<T> Node<T> {
    /// The children are strictly ascending by character, here and below.
    pub closed spec fn wf(&self) -> bool
        decreases self,
    {
        &&& forall|i: int, j: int|
            0 <= i < j < self.children@.len() ==> (#[trigger] self.children@[i]).c < (
            #[trigger] self.children@[j]).c
        &&& forall|i: int| 0 <= i < self.children@.len() ==> (#[trigger] self.children@[i]).wf()
    }

    /// The characters of the children, in the order in which the node
    /// holds them.
    pub closed spec fn keys(&self) -> Seq<char> {
        Seq::new(self.children@.len(), |i: int| self.children@[i].c)
    }

    /// The character that leads to this node.
    pub closed spec fn key(&self) -> char {
        self.c
    }

    /// Whether a child is reached by `c`.
    spec fn has_child(&self, c: char) -> bool {
        exists|i: int| 0 <= i < self.children@.len() && (#[trigger] self.children@[i]).c == c
    }

    /// The child that is reached by `c`, where there is one.
    spec fn child(&self, c: char) -> Node<T> {
        self.children@[choose|i: int|
            0 <= i < self.children@.len() && (#[trigger] self.children@[i]).c == c]
    }

    /// Whether the trie has a node at the end of `path`: a child for its
    /// first character, below it one for the second, and so on. The node
    /// itself is at the end of the empty path.
    pub closed spec fn has_path(&self, path: Seq<char>) -> bool
        decreases path.len(),
    {
        path.len() == 0 || (self.has_child(path[0]) && self.child(path[0]).has_path(
            path.skip(1),
        ))
    }

    /// The values stored under exactly `key`, in the order of insertion.
    pub closed spec fn lookup(&self, key: Seq<char>) -> Seq<T>
        decreases key.len(),
    {
        if key.len() == 0 {
            self.matches@
        } else if self.has_child(key[0]) {
            self.child(key[0]).lookup(key.skip(1))
        } else {
            Seq::empty()
        }
    }

    /// The values stored under the prefixes of `s` that have at most `n`
    /// characters: those of a shorter prefix before those of a longer one,
    /// those of one prefix in the order of insertion.
    pub open spec fn gather(&self, s: Seq<char>, n: nat) -> Seq<T>
        decreases n,
    {
        if n == 0 {
            self.lookup(Seq::empty())
        } else {
            self.gather(s, (n - 1) as nat) + self.lookup(s.take(n as int))
        }
    }

    /// The values stored under any prefix of `s`, the empty one and `s`
    /// itself included, ordered as `gather` orders them.
    pub open spec fn submatches(&self, s: Seq<char>) -> Seq<T> {
        self.gather(s, s.len())
    }

    /// How many characters of `s` a walk from this node reads: it goes
    /// down while a child matches, and the first character without a
    /// child is read too.
    pub closed spec fn walked(&self, s: Seq<char>) -> nat
        decreases s.len(),
    {
        if s.len() == 0 {
            0
        } else if self.has_child(s[0]) {
            1 + self.child(s[0]).walked(s.skip(1))
        } else {
            1
        }
    }

    /// No two children of a well-formed node have the same character: the
    /// characters ascend strictly.
    pub proof fn lemma_keys_ascend(&self)
        requires
            self.wf(),
        ensures
            forall|i: int, j: int|
                0 <= i < j < self.keys().len() ==> #[trigger] self.keys()[i]
                    < #[trigger] self.keys()[j],
    {
    }

    /// The children of a node are the ends of its paths of one character.
    pub proof fn lemma_keys_are_paths(&self)
        ensures
            forall|c: char| self.keys().contains(c) <==> #[trigger] self.has_path(seq![c]),
    {
        assert forall|c: char| self.keys().contains(c) <==> #[trigger] self.has_path(seq![c]) by {
            assert(seq![c][0] == c);
            assert(self.child(c).has_path(seq![c].skip(1)));
            if self.keys().contains(c) {
                let i = choose|i: int| 0 <= i < self.keys().len() && self.keys()[i] == c;
                assert(self.children@[i].c == c);
            }
            if self.has_child(c) {
                let i = choose|i: int|
                    0 <= i < self.children@.len() && (#[trigger] self.children@[i]).c == c;
                assert(self.keys()[i] == c);
            }
        }
    }

    /// Where the trie has a node, it has one at the end of every shorter
    /// beginning of the path.
    pub proof fn lemma_paths_closed(&self, path: Seq<char>, k: int)
        requires
            self.has_path(path),
            0 <= k <= path.len(),
        ensures
            self.has_path(path.take(k)),
        decreases k,
    {
        if k > 0 {
            self.child(path[0]).lemma_paths_closed(path.skip(1), k - 1);
            assert(path.take(k).skip(1) =~= path.skip(1).take(k - 1));
        }
    }

    /// Values are stored at nodes only.
    pub proof fn lemma_values_on_paths(&self, key: Seq<char>)
        requires
            self.lookup(key).len() > 0,
        ensures
            self.has_path(key),
        decreases key.len(),
    {
        if key.len() > 0 {
            self.child(key[0]).lemma_values_on_paths(key.skip(1));
        }
    }

    /// How far a walk reads, told by the children of the node it starts
    /// from: nothing of an empty source, one character where the first has
    /// no child, and more than one where it has a child and more follows.
    pub proof fn lemma_walked_by_keys(&self, s: Seq<char>)
        ensures
            s.len() == 0 ==> self.walked(s) == 0,
            s.len() > 0 ==> self.walked(s) >= 1,
            s.len() > 0 && !self.keys().contains(s[0]) ==> self.walked(s) == 1,
            s.len() > 1 && self.keys().contains(s[0]) ==> self.walked(s) >= 2,
    {
        if s.len() > 0 {
            self.lemma_keys_are_paths();
            assert(s.take(1) =~= seq![s[0]]);
            self.lemma_walked(s);
            if s.len() > 1 && self.keys().contains(s[0]) && self.walked(s) < 2 {
                assert(!self.has_path(s.take(1)));
            }
            if !self.keys().contains(s[0]) && self.walked(s) >= 2 {
                assert(self.has_path(s.take(1)));
            }
        }
    }

    /// How far a walk reads: it reads a character for every node it
    /// reaches below this one, and where it stops for want of a child
    /// before `s` ends, the character that found no child as well.
    pub proof fn lemma_walked(&self, s: Seq<char>)
        ensures
            self.walked(s) <= s.len(),
            forall|k: int| 0 <= k < self.walked(s) ==> #[trigger] self.has_path(s.take(k)),
            self.walked(s) < s.len() ==> !self.has_path(s.take(self.walked(s) as int)),
        decreases s.len(),
    {
        if s.len() > 0 {
            let below = self.child(s[0]);
            let rest = s.skip(1);
            if self.has_child(s[0]) {
                below.lemma_walked(rest);
                assert forall|k: int| 0 <= k < self.walked(s) implies #[trigger] self.has_path(
                    s.take(k),
                ) by {
                    if k > 0 {
                        assert(s.take(k).skip(1) =~= rest.take(k - 1));
                        assert(below.has_path(rest.take(k - 1)));
                    }
                }
                if self.walked(s) < s.len() {
                    let w = self.walked(s) as int;
                    assert(s.take(w).skip(1) =~= rest.take(w - 1));
                }
            } else {
                assert(s.take(1).len() == 1);
            }
        }
    }

    /// Once the walk along `s` has no child to go to, no longer prefix of
    /// `s` holds a value.
    proof fn lemma_gather_stops(&self, s: Seq<char>, d: nat, current: Self, n: nat)
        requires
            d < s.len(),
            d <= n <= s.len(),
            forall|q: Seq<char>| #[trigger] current.lookup(q) == self.lookup(s.take(d as int) + q),
            !current.has_child(s[d as int]),
        ensures
            self.gather(s, n) == self.gather(s, d),
        decreases n,
    {
        if n > d {
            self.lemma_gather_stops(s, d, current, (n - 1) as nat);
            let q = s.subrange(d as int, n as int);
            assert(s.take(n as int) =~= s.take(d as int) + q);
            assert(current.lookup(q) == Seq::<T>::empty());
        }
    }

    /// In a well-formed node the child at index `i` is the one that its
    /// character reaches.
    proof fn lemma_child_at(&self, i: int)
        requires
            self.wf(),
            0 <= i < self.children@.len(),
        ensures
            self.has_child(self.children@[i].c),
            self.child(self.children@[i].c) == self.children@[i],
    {
    }

    /// A fresh child that holds nothing changes no lookup.
    proof fn lemma_fresh_child(&self, after: Self, i: int, fresh: Self)
        requires
            self.wf(),
            fresh.wf(),
            forall|key: Seq<char>| #[trigger] fresh.lookup(key) == Seq::<T>::empty(),
            forall|path: Seq<char>| #[trigger] fresh.has_path(path) <==> path.len() == 0,
            0 <= i <= self.children@.len(),
            forall|j: int| 0 <= j < i ==> (#[trigger] self.children@[j]).c < fresh.c,
            forall|j: int|
                i <= j < self.children@.len() ==> fresh.c < (#[trigger] self.children@[j]).c,
            after.c == self.c,
            after.matches == self.matches,
            after.children@ == self.children@.insert(i, fresh),
        ensures
            after.wf(),
            after.keys() == self.keys().insert(i, fresh.c),
            !self.keys().contains(fresh.c),
            forall|key: Seq<char>| #[trigger] after.lookup(key) == self.lookup(key),
            forall|path: Seq<char>| #[trigger]
                after.has_path(path) <==> self.has_path(path) || path == seq![fresh.c],
    {
        assert(after.keys() =~= self.keys().insert(i, fresh.c));
        assert forall|path: Seq<char>| #[trigger]
            after.has_path(path) <==> self.has_path(path) || path == seq![fresh.c] by {
            if path.len() > 0 {
                let c = path[0];
                if c == fresh.c {
                    after.lemma_child_at(i);
                    assert(after.has_path(path) == fresh.has_path(path.skip(1)));
                    if path.skip(1).len() == 0 {
                        assert(path =~= seq![fresh.c]);
                    }
                } else if self.has_child(c) {
                    let j = choose|j: int|
                        0 <= j < self.children@.len() && (#[trigger] self.children@[j]).c == c;
                    self.lemma_child_at(j);
                    after.lemma_child_at(if j < i { j } else { j + 1 });
                } else if after.has_child(c) {
                    let j = choose|j: int|
                        0 <= j < after.children@.len() && (#[trigger] after.children@[j]).c == c;
                    assert(after.children@[j] == self.children@[if j < i { j } else { j - 1 }]);
                }
            }
        }
        assert forall|a: int, b: int| 0 <= a < b < after.children@.len() implies (
        #[trigger] after.children@[a]).c < (#[trigger] after.children@[b]).c by {
            let a0 = if a < i { a } else { a - 1 };
            let b0 = if b < i { b } else { b - 1 };
            if a != i && b != i {
                assert(self.children@[a0].c < self.children@[b0].c);
            }
        }
        assert forall|key: Seq<char>| #[trigger] after.lookup(key) == self.lookup(key) by {
            if key.len() > 0 {
                let c = key[0];
                if c == fresh.c {
                    after.lemma_child_at(i);
                    assert(after.lookup(key) == fresh.lookup(key.skip(1)));
                } else if self.has_child(c) {
                    let j = choose|j: int|
                        0 <= j < self.children@.len() && (#[trigger] self.children@[j]).c == c;
                    self.lemma_child_at(j);
                    after.lemma_child_at(if j < i { j } else { j + 1 });
                } else if after.has_child(c) {
                    let j = choose|j: int|
                        0 <= j < after.children@.len() && (#[trigger] after.children@[j]).c == c;
                    assert(after.children@[j] == self.children@[if j < i { j } else { j - 1 }]);
                }
            }
        }
    }

    /// Storing a value below one child changes the lookups of the keys
    /// that lead through that child, and no other.
    proof fn lemma_child_grown(&self, after: Self, i: int, grown: Self, rest: Seq<char>, info: T)
        requires
            self.wf(),
            grown.wf(),
            0 <= i < self.children@.len(),
            grown.c == self.children@[i].c,
            forall|key: Seq<char>| #[trigger]
                grown.lookup(key) == if key == rest {
                    self.children@[i].lookup(key).push(info)
                } else {
                    self.children@[i].lookup(key)
                },
            forall|path: Seq<char>| #[trigger]
                grown.has_path(path) <==> self.children@[i].has_path(path) || begins(rest, path),
            after.c == self.c,
            after.matches == self.matches,
            after.children@ == self.children@.update(i, grown),
        ensures
            after.wf(),
            after.keys() == self.keys(),
            self.keys().contains(grown.c),
            forall|key: Seq<char>| #[trigger]
                after.lookup(key) == if key == seq![grown.c] + rest {
                    self.lookup(key).push(info)
                } else {
                    self.lookup(key)
                },
            forall|path: Seq<char>| #[trigger]
                after.has_path(path) <==> self.has_path(path) || begins(
                    seq![grown.c] + rest,
                    path,
                ),
    {
        assert(after.keys() =~= self.keys());
        assert(self.keys()[i] == grown.c);
        assert forall|path: Seq<char>| #[trigger]
            after.has_path(path) <==> self.has_path(path) || begins(
                seq![grown.c] + rest,
                path,
            ) by {
            let whole = seq![grown.c] + rest;
            if path.len() > 0 {
                let c = path[0];
                assert(whole.skip(1) =~= rest);
                if c == grown.c {
                    self.lemma_child_at(i);
                    after.lemma_child_at(i);
                    assert(after.has_path(path) == grown.has_path(path.skip(1)));
                    assert(self.has_path(path) == self.children@[i].has_path(path.skip(1)));
                    if begins(rest, path.skip(1)) {
                        let front = whole.take(path.len() as int);
                        assert forall|k: int| 0 <= k < path.len() implies front[k] == path[k] by {
                            if k > 0 {
                                assert(rest.take(path.len() - 1)[k - 1] == path.skip(1)[k - 1]);
                            }
                        }
                        assert(front =~= path);
                    }
                    if begins(whole, path) {
                        assert(rest.take(path.len() - 1) =~= path.skip(1));
                    }
                } else {
                    assert(whole[0] == grown.c);
                    assert(!begins(whole, path)) by {
                        if begins(whole, path) {
                            assert(whole.take(path.len() as int)[0] == path[0]);
                        }
                    }
                    if self.has_child(c) {
                        let j = choose|j: int|
                            0 <= j < self.children@.len() && (#[trigger] self.children@[j]).c
                                == c;
                        self.lemma_child_at(j);
                        after.lemma_child_at(j);
                    } else if after.has_child(c) {
                        let j = choose|j: int|
                            0 <= j < after.children@.len() && (#[trigger] after.children@[j]).c
                                == c;
                        assert(self.children@[j].c == c);
                    }
                }
            } else {
                assert(whole.take(0) =~= path);
            }
        }
        let full = seq![grown.c] + rest;
        assert(full.skip(1) =~= rest);
        assert forall|key: Seq<char>| #[trigger]
            after.lookup(key) == if key == full {
                self.lookup(key).push(info)
            } else {
                self.lookup(key)
            } by {
            if key.len() > 0 {
                let c = key[0];
                if c == grown.c {
                    self.lemma_child_at(i);
                    after.lemma_child_at(i);
                    assert(after.lookup(key) == grown.lookup(key.skip(1)));
                    if key.skip(1) == rest {
                        assert(key =~= full);
                    }
                } else if self.has_child(c) {
                    let j = choose|j: int|
                        0 <= j < self.children@.len() && (#[trigger] self.children@[j]).c == c;
                    self.lemma_child_at(j);
                    after.lemma_child_at(j);
                } else if after.has_child(c) {
                    let j = choose|j: int|
                        0 <= j < after.children@.len() && (#[trigger] after.children@[j]).c == c;
                    assert(self.children@[j].c == c);
                }
            }
        }
    }

    /// A node with no child and no value.
    pub fn new(c: char) -> (node: Self)
        ensures
            node.wf(),
            node.key() == c,
            node.keys().len() == 0,
            forall|key: Seq<char>| #[trigger] node.lookup(key) == Seq::<T>::empty(),
            forall|path: Seq<char>| #[trigger] node.has_path(path) <==> path.len() == 0,
    {
        Node { c, children: Vec::new(), matches: Vec::new() }
    }

    /// Stores `info` under the key that `chars` gives, after the values
    /// that the key already holds. Every other key keeps its values.
    pub fn insert<S: CharSource>(&mut self, chars: &mut S, info: T)
        requires
            old(self).wf(),
            old(chars).inv(),
        ensures
            final(self).wf(),
            final(self).key() == old(self).key(),
            final(chars).inv(),
            final(chars).remaining().len() == 0,
            forall|key: Seq<char>| #[trigger]
                final(self).lookup(key) == if key == old(chars).remaining() {
                    old(self).lookup(key).push(info)
                } else {
                    old(self).lookup(key)
                },
            forall|path: Seq<char>| #[trigger]
                final(self).has_path(path) <==> old(self).has_path(path) || begins(
                    old(chars).remaining(),
                    path,
                ),
            final(self).keys().to_set() == if old(chars).remaining().len() == 0 {
                old(self).keys().to_set()
            } else {
                old(self).keys().to_set().insert(old(chars).remaining()[0])
            },
            old(chars).remaining().len() == 0 || old(self).keys().contains(
                old(chars).remaining()[0],
            ) ==> final(self).keys() == old(self).keys(),
            old(chars).remaining().len() > 0 && !old(self).keys().contains(
                old(chars).remaining()[0],
            ) ==> exists|i: int|
                0 <= i <= old(self).keys().len() && final(self).keys() == old(self).keys().insert(
                    i,
                    old(chars).remaining()[0],
                ),
        decreases old(chars).remaining().len(),
    {
        let ghost full = chars.remaining();
        match chars.next() {
            None => {
                self.matches.push(info);
                assert(self.children == old(self).children);
                assert forall|key: Seq<char>| #[trigger]
                    self.lookup(key) == if key == full {
                        old(self).lookup(key).push(info)
                    } else {
                        old(self).lookup(key)
                    } by {
                    if key.len() == 0 {
                        assert(key =~= full);
                    }
                }
                assert(self.keys() =~= old(self).keys());
                assert forall|path: Seq<char>| #[trigger]
                    self.has_path(path) <==> old(self).has_path(path) || begins(full, path) by {
                    if path.len() > 0 {
                        assert(self.has_child(path[0]) == old(self).has_child(path[0]));
                        assert(self.child(path[0]) == old(self).child(path[0]));
                    }
                }
            },
            Some(c) => {
                let ghost rest = chars.remaining();
                assert(full =~= seq![c] + rest);
                let next = match self.get_child_index(c) {
                    Ok(i) => i,
                    Err(i) => {
                        let fresh = Node::new(c);
                        proof {
                            assert forall|j: int| 0 <= j < i implies (
                            #[trigger] self.children@[j]).c < c by {
                                assert(self.keys()[j] < c);
                            }
                            assert forall|j: int| i <= j < self.children@.len() implies c < (
                            #[trigger] self.children@[j]).c by {
                                assert(c < self.keys()[j]);
                            }
                        }
                        self.children.insert(i, fresh);
                        proof {
                            old(self).lemma_fresh_child(*self, i as int, fresh);
                            lemma_insert_to_set(old(self).keys(), i as int, c);
                        }
                        i
                    },
                };
                let ghost middle = *self;
                let child = &mut self.children[next];
                child.insert(chars, info);
                proof {
                    middle.lemma_child_grown(
                        *self,
                        next as int,
                        self.children@[next as int],
                        rest,
                        info,
                    );
                    assert(middle.keys().to_set() =~= old(self).keys().to_set().insert(c));
                    assert forall|path: Seq<char>| #[trigger]
                        self.has_path(path) <==> old(self).has_path(path) || begins(
                            full,
                            path,
                        ) by {
                        if path == seq![c] {
                            assert(full.take(1) =~= path);
                        }
                    }
                }
            },
        }
    }

    /// Appends references to the values stored at this node.
    fn collect<'a>(&'a self, found: &mut Vec<&'a T>)
        ensures
            pointed(final(found)@) == pointed(old(found)@) + self.matches@,
    {
        let mut j: usize = 0;
        while j < self.matches.len()
            invariant
                j <= self.matches@.len(),
                pointed(found@) == pointed(old(found)@) + self.matches@.take(j as int),
            decreases self.matches@.len() - j,
        {
            let ghost before = found@;
            found.push(&self.matches[j]);
            j = j + 1;
            assert(pointed(found@).len() == pointed(before).len() + 1);
            assert forall|k: int| 0 <= k < pointed(found@).len() implies pointed(found@)[k] == (
            pointed(old(found)@) + self.matches@.take(j as int))[k] by {
                if k < before.len() {
                    assert(pointed(found@)[k] == pointed(before)[k]);
                }
            }
        }
    }

    /// Walks down from this node along the characters that `chars` gives
    /// and returns the values of every node on the way, this one first.
    /// The walk ends where `chars` ends or where no child matches; it
    /// reads no character beyond that.
    pub fn get_submatches<'a, S: CharSource>(&'a self, chars: &mut S) -> (found: Vec<&'a T>)
        requires
            self.wf(),
            old(chars).inv(),
        ensures
            pointed(found@) == self.submatches(old(chars).remaining()),
            final(chars).inv(),
            final(chars).remaining() == old(chars).remaining().skip(
                self.walked(old(chars).remaining()) as int,
            ),
    {
        let ghost s = chars.remaining();
        let ghost mut d: nat = 0;
        let mut current = self;
        let mut found: Vec<&'a T> = Vec::new();
        current.collect(&mut found);
        assert(s.skip(0) =~= s);
        assert(forall|q: Seq<char>| #[trigger] current.lookup(q) == self.lookup(s.take(0) + q));
        loop
            invariant_except_break
                chars.inv(),
                chars.remaining() == s.skip(d as int),
                pointed(found@) == self.gather(s, d),
                self.walked(s) == d + current.walked(s.skip(d as int)),
                forall|q: Seq<char>| #[trigger]
                    current.lookup(q) == self.lookup(s.take(d as int) + q),
            invariant
                self.wf(),
                current.wf(),
                d <= s.len(),
            ensures
                chars.inv(),
                pointed(found@) == self.submatches(s),
                chars.remaining() == s.skip(self.walked(s) as int),
            decreases s.len() - d,
        {
            let ghost here = s.skip(d as int);
            match chars.next() {
                None => {
                    break ;
                },
                Some(c) => {
                    assert(here.skip(1) =~= s.skip(d as int + 1));
                    match current.get_child_index(c) {
                        Err(_) => {
                            proof {
                                if current.has_child(c) {
                                    let j = choose|j: int|
                                        0 <= j < current.children@.len() && (
                                        #[trigger] current.children@[j]).c == c;
                                    assert(current.keys()[j] == c);
                                }
                                self.lemma_gather_stops(s, d, *current, s.len());
                            }
                            break ;
                        },
                        Ok(i) => {
                            let ghost parent = *current;
                            current = &current.children[i];
                            proof {
                                parent.lemma_child_at(i as int);
                                assert forall|q: Seq<char>| #[trigger]
                                    current.lookup(q) == self.lookup(s.take(d as int + 1) + q) by {
                                    let cq = seq![c] + q;
                                    assert(cq.skip(1) =~= q);
                                    assert(parent.lookup(cq) == current.lookup(q));
                                    assert(s.take(d as int) + cq =~= s.take(d as int + 1) + q);
                                }
                                d = d + 1;
                            }
                            current.collect(&mut found);
                            proof {
                                assert(current.lookup(Seq::empty()) == current.matches@);
                            }
                        },
                    }
                },
            }
        }
        found
    }

    /// Finds the child reached by `c`: `Ok` with its index, or `Err` with
    /// the index at which such a child would keep the order.
    pub fn get_child_index(&self, c: char) -> (r: Result<usize, usize>)
        requires
            self.wf(),
        ensures
            match r {
                Ok(i) => i < self.keys().len() && self.keys()[i as int] == c,
                Err(i) => i <= self.keys().len() && (forall|j: int|
                    0 <= j < i ==> #[trigger] self.keys()[j] < c) && (forall|j: int|
                    i <= j < self.keys().len() ==> c < #[trigger] self.keys()[j]),
            },
    {
        let mut lo: usize = 0;
        let mut hi: usize = self.children.len();
        while lo < hi
            invariant
                lo <= hi <= self.children@.len(),
                self.wf(),
                forall|j: int| 0 <= j < lo ==> (#[trigger] self.children@[j]).c < c,
                forall|j: int|
                    hi <= j < self.children@.len() ==> c < (#[trigger] self.children@[j]).c,
            decreases hi - lo,
        {
            let mid = lo + (hi - lo) / 2;
            let k = self.children[mid].c;
            if k == c {
                return Ok(mid);
            } else if k < c {
                lo = mid + 1;
            } else {
                hi = mid;
            }
        }
        Err(lo)
    }
}

/// A trie as a whole: its root, which no character leads to.
pub struct Tree<T>(Node<T>);

impl<T> Tree<T> {
    /// The root node.
    pub closed spec fn root(&self) -> Node<T> {
        self.0
    }

    /// The trie's invariant: that of its nodes.
    pub open spec fn wf(&self) -> bool {
        self.root().wf()
    }

    /// The values stored under exactly `key`, in the order of insertion.
    #[verifier::inline]
    pub open spec fn lookup(&self, key: Seq<char>) -> Seq<T> {
        self.root().lookup(key)
    }

    /// The values stored under any prefix of `s`: those of a shorter
    /// prefix first, those of one prefix in the order of insertion.
    pub open spec fn submatches(&self, s: Seq<char>) -> Seq<T> {
        self.root().submatches(s)
    }

    /// Whether the trie has a node at the end of `path`.
    #[verifier::inline]
    pub open spec fn has_path(&self, path: Seq<char>) -> bool {
        self.root().has_path(path)
    }

    /// A trie that holds nothing: no value under any key, and no node but
    /// its root.
    pub fn new() -> (tree: Self)
        ensures
            tree.wf(),
            tree.root().keys().len() == 0,
            forall|key: Seq<char>| #[trigger] tree.lookup(key) == Seq::<T>::empty(),
            forall|path: Seq<char>| #[trigger] tree.has_path(path) <==> path.len() == 0,
    {
        Tree(Node::new('\0'))
    }

    /// Stores `info` under the key that `chars` gives, after the values
    /// that the key already holds. Every other key keeps its values.
    pub fn insert<S: CharSource>(&mut self, chars: &mut S, info: T)
        requires
            old(self).wf(),
            old(chars).inv(),
        ensures
            final(self).wf(),
            final(chars).inv(),
            final(chars).remaining().len() == 0,
            forall|key: Seq<char>| #[trigger]
                final(self).lookup(key) == if key == old(chars).remaining() {
                    old(self).lookup(key).push(info)
                } else {
                    old(self).lookup(key)
                },
            forall|path: Seq<char>| #[trigger]
                final(self).has_path(path) <==> old(self).has_path(path) || begins(
                    old(chars).remaining(),
                    path,
                ),
            final(self).root().keys().to_set() == if old(chars).remaining().len() == 0 {
                old(self).root().keys().to_set()
            } else {
                old(self).root().keys().to_set().insert(old(chars).remaining()[0])
            },
            old(chars).remaining().len() == 0 || old(self).root().keys().contains(
                old(chars).remaining()[0],
            ) ==> final(self).root().keys() == old(self).root().keys(),
            old(chars).remaining().len() > 0 && !old(self).root().keys().contains(
                old(chars).remaining()[0],
            ) ==> exists|i: int|
                0 <= i <= old(self).root().keys().len() && final(self).root().keys() == old(
                    self,
                ).root().keys().insert(i, old(chars).remaining()[0]),
    {
        self.0.insert(chars, info);
    }

    /// The values stored under the prefixes of what `chars` gives, read
    /// only as far as the trie has nodes for it.
    pub fn get_submatches<'a, S: CharSource>(&'a self, chars: &mut S) -> (found: Vec<&'a T>)
        requires
            self.wf(),
            old(chars).inv(),
        ensures
            pointed(found@) == self.submatches(old(chars).remaining()),
            final(chars).inv(),
            final(chars).remaining() == old(chars).remaining().skip(
                self.root().walked(old(chars).remaining()) as int,
            ),
    {
        self.0.get_submatches(chars)
    }
}

} // verus!
