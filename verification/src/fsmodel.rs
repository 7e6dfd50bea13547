//! An explicit model of the directory tree the gateway works in.
//!
//! The archive store and the integrity verifier are defined over a tree
//! value rather than over a live filesystem: a caller loads the relevant
//! part of a directory into an `FsTree`, runs the verified logic, and
//! mirrors the resulting changes back out. The view of a tree is a map from
//! path to node, where a node is a directory or a file's byte content.

use vstd::prelude::*;

verus! {

/// One entry of the modeled tree.
#[derive(Clone, Debug)]
pub enum FsEntry {
    Dir,
    File(Vec<u8>),
}

/// A node as the view sees it: a directory, or a file with its bytes.
#[verifier::ext_equal]
pub enum Node {
    Dir,
    File(Seq<u8>),
}

/// The node an entry denotes.
pub open spec fn spec_node_of(e: FsEntry) -> Node {
    match e {
        FsEntry::Dir => Node::Dir,
        FsEntry::File(v) => Node::File(v@),
    }
}

/// The first entry with path `p`.
pub open spec fn spec_find(s: Seq<(String, FsEntry)>, p: Seq<char>) -> Option<FsEntry>
    decreases s.len(),
{
    if s.len() == 0 {
        None
    } else if s.first().0@ == p {
        Some(s.first().1)
    } else {
        spec_find(s.drop_first(), p)
    }
}

/// `p` is bound to a directory in `m`.
pub open spec fn spec_is_dir(m: Map<Seq<char>, Node>, p: Seq<char>) -> bool {
    m.dom().contains(p) && m[p] is Dir
}

/// `p` is bound to a file in `m`.
pub open spec fn spec_is_file(m: Map<Seq<char>, Node>, p: Seq<char>) -> bool {
    m.dom().contains(p) && m[p] is File
}

/// The bytes of the file at `p`.
pub open spec fn spec_content(m: Map<Seq<char>, Node>, p: Seq<char>) -> Seq<u8>
    recommends
        spec_is_file(m, p),
{
    m[p]->File_0
}

/// Creating a directory: a no-op when anything already sits at `p`.
pub open spec fn spec_mkdir(m: Map<Seq<char>, Node>, p: Seq<char>) -> Map<Seq<char>, Node> {
    if m.dom().contains(p) {
        m
    } else {
        m.insert(p, Node::Dir)
    }
}

/// Writing a file replaces whatever sat at `p`.
pub open spec fn spec_write(m: Map<Seq<char>, Node>, p: Seq<char>, d: Seq<u8>) -> Map<
    Seq<char>,
    Node,
> {
    m.insert(p, Node::File(d))
}

proof fn lemma_find_absent(s: Seq<(String, FsEntry)>, p: Seq<char>)
    ensures
        (spec_find(s, p) is None) <==> (forall|j: int| 0 <= j < s.len() ==> (#[trigger] s[j]).0@ != p),
    decreases s.len(),
{
    if s.len() > 0 {
        lemma_find_absent(s.drop_first(), p);
        assert(s.first() == s[0]);
        if spec_find(s, p) is None {
            assert forall|j: int| 0 <= j < s.len() implies (#[trigger] s[j]).0@ != p by {
                if j > 0 {
                    assert(s[j] == s.drop_first()[j - 1]);
                }
            }
        } else {
            if s[0].0@ == p {
            } else {
                let j = choose|j: int|
                    0 <= j < s.drop_first().len() && (#[trigger] s.drop_first()[j]).0@ == p;
                assert(s[j + 1] == s.drop_first()[j]);
            }
        }
    }
}

proof fn lemma_find_push(s: Seq<(String, FsEntry)>, e: (String, FsEntry), q: Seq<char>)
    ensures
        spec_find(s.push(e), q) == (if spec_find(s, q) is Some {
            spec_find(s, q)
        } else if q == e.0@ {
            Some(e.1)
        } else {
            None::<FsEntry>
        }),
    decreases s.len(),
{
    if s.len() == 0 {
        assert(s.push(e).len() == 1);
        assert(s.push(e).first() == e);
        assert(s.push(e).drop_first() =~= Seq::<(String, FsEntry)>::empty());
        if e.0@ == q {
            assert(spec_find(s.push(e), q) == Some(e.1));
        } else {
            assert(spec_find(s.push(e), q) == spec_find(s.push(e).drop_first(), q));
            assert(spec_find(s.push(e), q) is None);
        }
    } else {
        assert(s.push(e)[0] == s[0]);
        assert(s.push(e).first() == s.first());
        assert(s.push(e).drop_first() =~= s.drop_first().push(e));
        lemma_find_push(s.drop_first(), e, q);
        if s.first().0@ == q {
            assert(spec_find(s.push(e), q) == Some(s.first().1));
            assert(spec_find(s, q) == Some(s.first().1));
        } else {
            assert(spec_find(s.push(e), q) == spec_find(s.drop_first().push(e), q));
            assert(spec_find(s, q) == spec_find(s.drop_first(), q));
        }
    }
}

proof fn lemma_find_update(s: Seq<(String, FsEntry)>, i: int, e: (String, FsEntry), q: Seq<char>)
    requires
        0 <= i < s.len(),
        s[i].0@ == e.0@,
        forall|j: int| 0 <= j < i ==> (#[trigger] s[j]).0@ != e.0@,
    ensures
        spec_find(s.update(i, e), q) == (if q == e.0@ {
            Some(e.1)
        } else {
            spec_find(s, q)
        }),
    decreases i,
{
    if i == 0 {
        assert(s.update(0, e).first() == e);
        assert(s.update(0, e).drop_first() =~= s.drop_first());
    } else {
        assert(s.update(i, e).first() == s.first());
        assert(s.update(i, e).drop_first() =~= s.drop_first().update(i - 1, e));
        assert(forall|j: int|
            0 <= j < i - 1 ==> (#[trigger] s.drop_first()[j]).0@ == s[j + 1].0@);
        lemma_find_update(s.drop_first(), i - 1, e, q);
    }
}

proof fn lemma_find_remove(s: Seq<(String, FsEntry)>, i: int, q: Seq<char>)
    requires
        0 <= i < s.len(),
        forall|j: int| 0 <= j < s.len() && j != i ==> (#[trigger] s[j]).0@ != s[i].0@,
    ensures
        spec_find(s.remove(i), q) == (if q == s[i].0@ {
            None::<FsEntry>
        } else {
            spec_find(s, q)
        }),
    decreases i,
{
    if i == 0 {
        assert(s.remove(0) =~= s.drop_first());
        if q == s[0].0@ {
            lemma_find_absent(s.drop_first(), q);
            assert(forall|j: int|
                0 <= j < s.drop_first().len() ==> #[trigger] s.drop_first()[j] == s[j + 1]);
        }
    } else {
        assert(s.remove(i).first() == s.first());
        assert(s.remove(i).drop_first() =~= s.drop_first().remove(i - 1));
        assert(forall|j: int|
            0 <= j < s.drop_first().len() ==> #[trigger] s.drop_first()[j] == s[j + 1]);
        lemma_find_remove(s.drop_first(), i - 1, q);
    }
}

proof fn lemma_find_at(s: Seq<(String, FsEntry)>, i: int)
    requires
        0 <= i < s.len(),
        forall|a: int, b: int| 0 <= a < b < s.len() ==> (#[trigger] s[a]).0@ != (#[trigger] s[b]).0@,
    ensures
        spec_find(s, s[i].0@) == Some(s[i].1),
    decreases i,
{
    if i == 0 {
        assert(s.first() == s[0]);
    } else {
        assert(s.first() == s[0]);
        assert(s[0].0@ != s[i].0@);
        assert(s.drop_first()[i - 1] == s[i]);
        assert(forall|a: int, b: int|
            0 <= a < b < s.drop_first().len() ==> (#[trigger] s.drop_first()[a]).0@ != (
            #[trigger] s.drop_first()[b]).0@) by {
            assert(forall|a: int|
                0 <= a < s.drop_first().len() ==> #[trigger] s.drop_first()[a] == s[a + 1]);
        }
        lemma_find_at(s.drop_first(), i - 1);
    }
}

/// A directory tree held as a value.
#[derive(Debug)]
pub struct FsTree {
    entries: Vec<(String, FsEntry)>,
}

impl View for FsTree {
    type V = Map<Seq<char>, Node>;

    closed spec fn view(&self) -> Map<Seq<char>, Node> {
        Map::new(
            |p: Seq<char>| spec_find(self.entries@, p) is Some,
            |p: Seq<char>| spec_node_of(spec_find(self.entries@, p).unwrap()),
        )
    }
}

impl FsTree {
    /// Paths are unique, so a path denotes at most one node.
    pub closed spec fn wf(&self) -> bool {
        forall|i: int, j: int|
            0 <= i < j < self.entries@.len() ==> (#[trigger] self.entries@[i]).0@ != (
            #[trigger] self.entries@[j]).0@
    }

    /// The empty tree.
    pub fn new() -> (r: FsTree)
        ensures
            r.wf(),
            r@ =~= Map::<Seq<char>, Node>::empty(),
    {
        let r = FsTree { entries: Vec::new() };
        proof {
            assert forall|p: Seq<char>| !(spec_find(r.entries@, p) is Some) by {}
        }
        r
    }

    fn find_index(&self, p: &str) -> (r: Option<usize>)
        ensures
            match r {
                Some(i) => i < self.entries@.len() && self.entries@[i as int].0@ == p@
                    && spec_find(self.entries@, p@) == Some(self.entries@[i as int].1) && forall|
                    j: int,
                |
                    0 <= j < i ==> (#[trigger] self.entries@[j]).0@ != p@,
                None => spec_find(self.entries@, p@) is None,
            },
    {
        let mut i: usize = 0;
        proof {
            assert(self.entries@.skip(0) =~= self.entries@);
        }
        while i < self.entries.len()
            invariant
                i <= self.entries@.len(),
                spec_find(self.entries@, p@) == spec_find(self.entries@.skip(i as int), p@),
                forall|j: int| 0 <= j < i ==> (#[trigger] self.entries@[j]).0@ != p@,
            decreases self.entries@.len() - i,
        {
            proof {
                assert(self.entries@.skip(i as int).first() == self.entries@[i as int]);
                assert(self.entries@.skip(i as int).drop_first() =~= self.entries@.skip(i + 1));
            }
            if crate::tensor::str_eq(self.entries[i].0.as_str(), p) {
                return Some(i);
            }
            i = i + 1;
        }
        proof {
            assert(self.entries@.skip(i as int) =~= Seq::<(String, FsEntry)>::empty());
        }
        None
    }

    /// Whether a directory sits at `p`.
    pub fn is_dir(&self, p: &str) -> (r: bool)
        ensures
            r == spec_is_dir(self@, p@),
    {
        match self.find_index(p) {
            Some(i) => match &self.entries[i].1 {
                FsEntry::Dir => true,
                FsEntry::File(_) => false,
            },
            None => false,
        }
    }

    /// Whether a file sits at `p`.
    pub fn is_file(&self, p: &str) -> (r: bool)
        ensures
            r == spec_is_file(self@, p@),
    {
        match self.find_index(p) {
            Some(i) => match &self.entries[i].1 {
                FsEntry::Dir => false,
                FsEntry::File(_) => true,
            },
            None => false,
        }
    }

    /// The bytes of the file at `p`, when a file sits there.
    pub fn read_file(&self, p: &str) -> (r: Option<Vec<u8>>)
        ensures
            match r {
                Some(d) => spec_is_file(self@, p@) && d@ == spec_content(self@, p@),
                None => !spec_is_file(self@, p@),
            },
    {
        match self.find_index(p) {
            Some(i) => match &self.entries[i].1 {
                FsEntry::Dir => None,
                FsEntry::File(v) => {
                    let c = v.clone();
                    proof {
                        assert(c@ =~= v@) by {
                            assert(forall|k: int| #![all_triggers]
                                0 <= k < v@.len() ==> c@[k] == v@[k]);
                        }
                    }
                    Some(c)
                },
            },
            None => None,
        }
    }

    /// Create a directory at `p`; a no-op when anything already sits there.
    pub fn mkdir(&mut self, p: &str)
        requires
            old(self).wf(),
        ensures
            final(self).wf(),
            final(self)@ =~= spec_mkdir(old(self)@, p@),
    {
        match self.find_index(p) {
            Some(_) => {},
            None => {
                proof {
                    lemma_find_absent(self.entries@, p@);
                }
                let ghost s0 = self.entries@;
                let entry = (String::from_str(p), FsEntry::Dir);
                let ghost e = entry;
                self.entries.push(entry);
                proof {
                    assert forall|q: Seq<char>|
                        spec_find(self.entries@, q) == (if q == p@ {
                            Some(e.1)
                        } else {
                            spec_find(s0, q)
                        }) by {
                        lemma_find_push(s0, e, q);
                    }
                }
            },
        }
    }

    /// Write `data` to the file at `p`, replacing whatever sat there.
    pub fn write_file(&mut self, p: &str, data: Vec<u8>)
        requires
            old(self).wf(),
        ensures
            final(self).wf(),
            final(self)@ =~= spec_write(old(self)@, p@, data@),
    {
        let ghost s0 = self.entries@;
        match self.find_index(p) {
            Some(i) => {
                let entry = (String::from_str(p), FsEntry::File(data));
                let ghost e = entry;
                self.entries[i] = entry;
                proof {
                    assert forall|q: Seq<char>|
                        spec_find(self.entries@, q) == (if q == p@ {
                            Some(e.1)
                        } else {
                            spec_find(s0, q)
                        }) by {
                        lemma_find_update(s0, i as int, e, q);
                    }
                    assert forall|a: int, b: int|
                        0 <= a < b < self.entries@.len() implies (
                    #[trigger] self.entries@[a]).0@ != (#[trigger] self.entries@[b]).0@ by {
                        assert(s0[a].0@ != s0[b].0@);
                    }
                }
            },
            None => {
                proof {
                    lemma_find_absent(s0, p@);
                }
                let entry = (String::from_str(p), FsEntry::File(data));
                let ghost e = entry;
                self.entries.push(entry);
                proof {
                    assert forall|q: Seq<char>|
                        spec_find(self.entries@, q) == (if q == p@ {
                            Some(e.1)
                        } else {
                            spec_find(s0, q)
                        }) by {
                        lemma_find_push(s0, e, q);
                    }
                }
            },
        }
    }

    /// Every binding of the tree, as path and node pairs: what a caller
    /// mirroring the tree out must materialize.
    pub fn list_entries(&self) -> (r: Vec<(String, FsEntry)>)
        requires
            self.wf(),
        ensures
            forall|i: int|
                0 <= i < r@.len() ==> self@.dom().contains((#[trigger] r@[i]).0@) && self@[r@[
                    i
                ].0@] == spec_node_of(r@[i].1),
    {
        let mut r: Vec<(String, FsEntry)> = Vec::new();
        let mut i: usize = 0;
        while i < self.entries.len()
            invariant
                self.wf(),
                i <= self.entries@.len(),
                r@.len() == i,
                forall|j: int|
                    0 <= j < i ==> (#[trigger] r@[j]).0@ == self.entries@[j].0@ && spec_node_of(
                        r@[j].1,
                    ) == spec_node_of(self.entries@[j].1),
            decreases self.entries@.len() - i,
        {
            let path = self.entries[i].0.clone();
            let entry = match &self.entries[i].1 {
                FsEntry::Dir => FsEntry::Dir,
                FsEntry::File(v) => {
                    let c = v.clone();
                    proof {
                        assert(c@ =~= v@) by {
                            assert(forall|k: int| #![all_triggers]
                                0 <= k < v@.len() ==> c@[k] == v@[k]);
                        }
                    }
                    FsEntry::File(c)
                },
            };
            r.push((path, entry));
            i = i + 1;
        }
        proof {
            assert forall|j: int|
                0 <= j < r@.len() implies self@.dom().contains((#[trigger] r@[j]).0@) && self@[r@[
                j
            ].0@] == spec_node_of(r@[j].1) by {
                lemma_find_at(self.entries@, j);
            }
        }
        r
    }

    /// Remove whatever sits at `p`; a no-op when nothing does.
    pub fn remove_path(&mut self, p: &str)
        requires
            old(self).wf(),
        ensures
            final(self).wf(),
            final(self)@ =~= old(self)@.remove(p@),
    {
        let ghost s0 = self.entries@;
        match self.find_index(p) {
            Some(i) => {
                proof {
                    assert forall|j: int|
                        0 <= j < s0.len() && j != i implies (#[trigger] s0[j]).0@ != s0[
                        i as int].0@ by {}
                }
                self.entries.remove(i);
                proof {
                    assert forall|q: Seq<char>|
                        spec_find(self.entries@, q) == (if q == p@ {
                            None::<FsEntry>
                        } else {
                            spec_find(s0, q)
                        }) by {
                        lemma_find_remove(s0, i as int, q);
                    }
                    assert forall|a: int, b: int|
                        0 <= a < b < self.entries@.len() implies (
                    #[trigger] self.entries@[a]).0@ != (#[trigger] self.entries@[b]).0@ by {
                        if b < i {
                            assert(self.entries@[a] == s0[a] && self.entries@[b] == s0[b]);
                        } else if a < i <= b {
                            assert(self.entries@[a] == s0[a] && self.entries@[b] == s0[b + 1]);
                        } else {
                            assert(self.entries@[a] == s0[a + 1] && self.entries@[b] == s0[b + 1]);
                        }
                    }
                }
            },
            None => {
                proof {
                    assert(self@ =~= old(self)@.remove(p@));
                }
            },
        }
    }
}

/// `base` + `"/"` + `rel`: the path of `rel` inside `base`.
pub fn join_path(base: &str, rel: &str) -> (r: String)
    ensures
        r@ == spec_join(base@, rel@),
{
    let mut r = String::from_str(base);
    r.append("/");
    r.append(rel);
    r
}

/// `base` + `"/"` + `rel`.
pub open spec fn spec_join(base: Seq<char>, rel: Seq<char>) -> Seq<char> {
    base + "/"@ + rel
}

} // verus!
