//! The remote file tree of the terminal UI: nodes under their parents,
//! the children of a folder replaced by a new listing, and a node removed
//! with everything below it once it was deleted.
use vstd::prelude::*;
use crate::components::{child_id, child_node_id};
use crate::cscs::{PathEntry, PathType};
use crate::docker::str_equal;

verus! {

/// A node of the tree: its id (the remote path), the id of its parent (none
/// for the root), and the entry's name and kind.
#[derive(Debug)]
pub struct TreeNode {
    pub id: String,
    pub parent: Option<String>,
    pub name: String,
    pub path_type: PathType,
}

/// A node, by value.
pub type NodeView = (Seq<char>, Option<Seq<char>>, Seq<char>, PathType);

impl View for TreeNode {
    type V = NodeView;

    open spec fn view(&self) -> NodeView {
        (
            self.id@,
            match self.parent {
                Some(p) => Some(p@),
                None => None,
            },
            self.name@,
            self.path_type,
        )
    }
}

/// The nodes of the tree, the root among them.
#[derive(Debug)]
pub struct FileTree {
    pub nodes: Vec<TreeNode>,
}

impl View for FileTree {
    type V = Seq<NodeView>;

    open spec fn view(&self) -> Seq<NodeView> {
        self.nodes@.map_values(|n: TreeNode| n@)
    }
}

/// The first node with the id.
pub open spec fn node_index(s: Seq<NodeView>, id: Seq<char>) -> Option<int>
    decreases s.len(),
{
    if s.len() == 0 {
        None
    } else if s[0].0 == id {
        Some(0)
    } else {
        match node_index(s.drop_first(), id) {
            Some(i) => Some(i + 1),
            None => None,
        }
    }
}

/// The parent of the node with the id, where it has one.
pub open spec fn parent_of(s: Seq<NodeView>, id: Seq<char>) -> Option<Seq<char>> {
    match node_index(s, id) {
        Some(i) => s[i].1,
        None => None,
    }
}

/// Going up from the node `id` through at most `k` parents reaches `x`.
pub open spec fn reaches(s: Seq<NodeView>, id: Seq<char>, x: Seq<char>, k: nat) -> bool
    decreases k,
{
    if k == 0 {
        false
    } else {
        match parent_of(s, id) {
            None => false,
            Some(p) => p == x || reaches(s, p, x, (k - 1) as nat),
        }
    }
}

/// The node `id` lies strictly below `x`.
pub open spec fn below(s: Seq<NodeView>, id: Seq<char>, x: Seq<char>) -> bool {
    reaches(s, id, x, s.len())
}

/// The nodes that do not lie strictly below `x` (and, where `with_x`, are
/// not `x` itself either), in their order.
pub open spec fn kept(s: Seq<NodeView>, all: Seq<NodeView>, x: Seq<char>, with_x: bool) -> Seq<NodeView>
    decreases s.len(),
{
    if s.len() == 0 {
        s
    } else {
        let r = kept(s.drop_last(), all, x, with_x);
        let n = s.last();
        if below(all, n.0, x) || (with_x && n.0 == x) {
            r
        } else {
            r.push(n)
        }
    }
}

/// The nodes made for the entries of a listing of the folder `id`.
pub open spec fn listed(id: Seq<char>, entries: Seq<PathEntry>) -> Seq<NodeView> {
    entries.map_values(
        |e: PathEntry| (child_id(id, e.name@), Some(id), e.name@, e.path_type),
    )
}

proof fn lemma_node_index(s: Seq<NodeView>, id: Seq<char>)
    ensures
        node_index(s, id) matches Some(i) ==> 0 <= i < s.len() && s[i].0 == id,
    decreases s.len(),
{
    if s.len() > 0 && s[0].0 != id {
        lemma_node_index(s.drop_first(), id);
    }
}

impl TreeNode {
    fn copy(&self) -> (r: TreeNode)
        ensures
            r@ == self@,
    {
        TreeNode {
            id: self.id.clone(),
            parent: match &self.parent {
                Some(p) => Some(p.clone()),
                None => None,
            },
            name: self.name.clone(),
            path_type: self.path_type,
        }
    }
}

impl FileTree {
    fn index_of(&self, id: &str) -> (r: Option<usize>)
        ensures
            match node_index(self@, id@) {
                Some(i) => r == Some(i as usize),
                None => r is None,
            },
            r matches Some(i) ==> i < self@.len() && node_index(self@, id@) == Some(i as int),
    {
        proof {
            lemma_node_index(self@, id@);
        }
        let mut i: usize = 0;
        proof {
            assert(self@.skip(0) =~= self@);
        }
        while i < self.nodes.len()
            invariant
                i <= self.nodes.len(),
                node_index(self@, id@) == match node_index(self@.skip(i as int), id@) {
                    Some(j) => Some(j + i),
                    None => None,
                },
            decreases self.nodes.len() - i,
        {
            proof {
                assert(self@.skip(i as int).drop_first() =~= self@.skip(i + 1));
                assert(self@.skip(i as int)[0] == self@[i as int]);
            }
            if str_equal(self.nodes[i].id.as_str(), id) {
                return Some(i);
            }
            i = i + 1;
        }
        proof {
            assert(self@.skip(i as int).len() == 0);
        }
        None
    }

    /// The parent of the node `id`, where it has one.
    fn parent_id(&self, id: &str) -> (r: Option<String>)
        ensures
            match parent_of(self@, id@) {
                Some(p) => r matches Some(q) && q@ == p,
                None => r is None,
            },
    {
        match self.index_of(id) {
            Some(i) => {
                proof {
                    assert(self@[i as int] == self.nodes@[i as int]@);
                }
                match &self.nodes[i].parent {
                    Some(p) => {
                        let q = p.clone();
                        proof {
                            assert(self.nodes@[i as int].parent == Some(*p));
                            assert(parent_of(self@, id@) == Some(p@));
                        }
                        Some(q)
                    },
                    None => None,
                }
            },
            None => None,
        }
    }

    /// Whether the node `id` lies strictly below `x`.
    fn is_below(&self, id: &str, x: &str) -> (r: bool)
        ensures
            r == below(self@, id@, x@),
    {
        let n = self.nodes.len();
        let mut cur = String::from_str(id);
        let mut k: usize = n;
        while k > 0
            invariant
                k <= n,
                n == self@.len(),
                below(self@, id@, x@) == reaches(self@, cur@, x@, k as nat),
            decreases k,
        {
            match self.parent_id(cur.as_str()) {
                None => {
                    return false;
                },
                Some(p) => {
                    if str_equal(p.as_str(), x) {
                        return true;
                    }
                    cur = p;
                },
            }
            k = k - 1;
        }
        false
    }

    /// The nodes kept when what lies below `x` goes (and `x` itself where
    /// `with_x`).
    fn without_below(&self, x: &str, with_x: bool) -> (r: Vec<TreeNode>)
        ensures
            r@.map_values(|n: TreeNode| n@) == kept(self@, self@, x@, with_x),
    {
        let mut r: Vec<TreeNode> = Vec::new();
        let mut i: usize = 0;
        proof {
            assert(self@.take(0) =~= Seq::<NodeView>::empty());
            assert(r@.map_values(|n: TreeNode| n@) =~= Seq::<NodeView>::empty());
        }
        while i < self.nodes.len()
            invariant
                i <= self.nodes.len(),
                r@.map_values(|n: TreeNode| n@) == kept(self@.take(i as int), self@, x@, with_x),
            decreases self.nodes.len() - i,
        {
            proof {
                assert(self@.take(i + 1).drop_last() =~= self@.take(i as int));
                assert(self@.take(i + 1).last() == self@[i as int]);
            }
            let drop = self.is_below(self.nodes[i].id.as_str(), x) || (with_x && str_equal(
                self.nodes[i].id.as_str(),
                x,
            ));
            if !drop {
                let c = self.nodes[i].copy();
                let ghost before = r@;
                r.push(c);
                proof {
                    assert(r@.map_values(|n: TreeNode| n@) =~= before.map_values(|n: TreeNode| n@).push(
                        c@,
                    ));
                }
            }
            i = i + 1;
        }
        proof {
            assert(self@.take(self@.len() as int) =~= self@);
        }
        r
    }

    /// A new listing of the folder `id` came: its old children (and all
    /// below them) go, and a node for each listed entry is added under it,
    /// in the listing's order.
    pub fn replace_children(&mut self, id: &str, entries: &Vec<PathEntry>)
        requires
            node_index(old(self)@, id@) is Some,
        ensures
            final(self)@ == kept(old(self)@, old(self)@, id@, false) + listed(id@, entries@),
    {
        let mut r = self.without_below(id, false);
        let ghost base = r@.map_values(|n: TreeNode| n@);
        let mut j: usize = 0;
        proof {
            assert(base + listed(id@, entries@).take(0) =~= base);
        }
        while j < entries.len()
            invariant
                j <= entries.len(),
                r@.map_values(|n: TreeNode| n@) == base + listed(id@, entries@).take(j as int),
            decreases entries.len() - j,
        {
            let e = &entries[j];
            let node = TreeNode {
                id: child_node_id(id, e.name.as_str()),
                parent: Some(String::from_str(id)),
                name: e.name.clone(),
                path_type: e.path_type,
            };
            let ghost before = r@;
            r.push(node);
            proof {
                assert(r@.map_values(|n: TreeNode| n@) =~= before.map_values(|n: TreeNode| n@).push(
                    node@,
                ));
                assert(base + listed(id@, entries@).take(j + 1) =~= (base + listed(id@, entries@).take(
                    j as int,
                )).push(node@));
            }
            j = j + 1;
        }
        proof {
            assert(listed(id@, entries@).take(entries.len() as int) =~= listed(id@, entries@));
        }
        self.nodes = r;
    }

    /// The node `id` was deleted: where it has a parent, it goes with all
    /// below it and the parent is selected; otherwise the tree stays and
    /// `id` stays selected.
    pub fn remove_node(&mut self, id: &str) -> (selected: String)
        ensures
            match parent_of(old(self)@, id@) {
                Some(p) => final(self)@ == kept(old(self)@, old(self)@, id@, true) && selected@ == p,
                None => final(self)@ == old(self)@ && selected@ == id@,
            },
    {
        match self.parent_id(id) {
            Some(p) => {
                let r = self.without_below(id, true);
                self.nodes = r;
                p
            },
            None => String::from_str(id),
        }
    }
}

} // verus!
