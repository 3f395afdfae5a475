//! The accessible-object tree: node snapshots and the picking (hit-testing)
//! algorithm that resolves a point to the most specific containing node.

use vstd::prelude::*;

use crate::geometry::Rect;

verus! {

/// One accessible-object snapshot. A node's own fields are fixed at
/// construction; only its `children` sequence grows, and only by appends at
/// the tail while a build is running.
#[derive(Debug)]
pub struct Node {
    /// Display name; may be empty.
    pub name: String,
    /// Display name of the enumerated accessibility role.
    pub role: String,
    /// Screen extents in the root's coordinate space; the sentinel
    /// `(0, 0, 0, 0)` when the object exposes no geometry.
    pub extents: Rect,
    /// Child snapshots, in the enumeration order returned at fetch time.
    pub children: Vec<Node>,
}

/// Index of the first node in `cs` whose extents contain `(px, py)`, or
/// `cs.len()` when none does.
pub open spec fn first_hit(cs: Seq<Node>, px: int, py: int) -> int
    decreases cs.len(),
{
    if cs.len() == 0 {
        0
    } else if cs[0].extents.spec_contains(px, py) {
        0
    } else {
        1 + first_hit(cs.drop_first(), px, py)
    }
}

/// `first_hit` returns the least index whose extents contain the point.
pub proof fn lemma_first_hit(cs: Seq<Node>, px: int, py: int)
    ensures
        0 <= first_hit(cs, px, py) <= cs.len(),
        first_hit(cs, px, py) < cs.len() ==> cs[first_hit(cs, px, py)].extents.spec_contains(
            px,
            py,
        ),
        forall|j: int|
            0 <= j < first_hit(cs, px, py) ==> !(#[trigger] cs[j].extents.spec_contains(px, py)),
    decreases cs.len(),
{
    if cs.len() == 0 {
    } else if cs[0].extents.spec_contains(px, py) {
    } else {
        lemma_first_hit(cs.drop_first(), px, py);
        assert forall|j: int|
            0 <= j < first_hit(cs, px, py) implies !(#[trigger] cs[j].extents.spec_contains(
            px,
            py,
        )) by {
            if j > 0 {
                assert(!cs.drop_first()[j - 1].extents.spec_contains(px, py));
                assert(cs.drop_first()[j - 1] == cs[j]);
            }
        }
    }
}

/// The node that picking selects inside a node already known to contain the
/// point: descend into the first containing child, in enumeration order,
/// until no child contains the point.
pub open spec fn pick_from(n: Node, px: int, py: int) -> Node
    decreases n,
{
    let i = first_hit(n.children@, px, py);
    if 0 <= i < n.children@.len() {
        pick_from(n.children@[i], px, py)
    } else {
        n
    }
}

/// Picking over a whole, possibly absent, tree: none when there is no tree
/// or the point lies outside the root's extents.
pub open spec fn spec_pick(tree: Option<Node>, px: int, py: int) -> Option<Node> {
    match tree {
        Option::Some(root) => if root.extents.spec_contains(px, py) {
            Option::Some(pick_from(root, px, py))
        } else {
            Option::None
        },
        Option::None => Option::None,
    }
}

/// The most specific node of `tree` containing `(px, py)`, or none.
pub fn pick_in_tree(tree: &Option<Node>, px: i32, py: i32) -> (r: Option<&Node>)
    ensures
        r is Some <==> spec_pick(*tree, px as int, py as int) is Some,
        r matches Some(node) ==> spec_pick(*tree, px as int, py as int) == Some(*node),
{
    match tree {
        Option::Some(root) => {
            if root.extents.contains_point(px, py) {
                Option::Some(root.pick(px, py))
            } else {
                Option::None
            }
        },
        Option::None => Option::None,
    }
}

/// Whether `path` denotes a node below `n`: each step an in-range child
/// index.
pub open spec fn valid_path(n: Node, path: Seq<usize>) -> bool
    decreases path.len(),
{
    path.len() == 0 || {
        &&& (path[0] as int) < n.children@.len()
        &&& valid_path(n.children@[path[0] as int], path.drop_first())
    }
}

/// The node that `path` denotes below `n`.
pub open spec fn node_at(n: Node, path: Seq<usize>) -> Node
    decreases path.len(),
{
    if path.len() == 0 {
        n
    } else {
        node_at(n.children@[path[0] as int], path.drop_first())
    }
}

/// `post` is `pre` with `child` appended at the tail of the children of the
/// node that `path` denotes, and nothing else changed anywhere in the tree.
pub open spec fn is_append_at(pre: Node, post: Node, path: Seq<usize>, child: Node) -> bool
    decreases path.len(),
{
    &&& post.name == pre.name
    &&& post.role == pre.role
    &&& post.extents == pre.extents
    &&& if path.len() == 0 {
        post.children@ == pre.children@.push(child)
    } else {
        &&& (path[0] as int) < pre.children@.len()
        &&& post.children@.len() == pre.children@.len()
        &&& (forall|k: int|
            0 <= k < pre.children@.len() && k != path[0] as int ==> #[trigger] post.children@[k]
                == pre.children@[k])
        &&& is_append_at(
            pre.children@[path[0] as int],
            post.children@[path[0] as int],
            path.drop_first(),
            child,
        )
    }
}

/// For any tree and any point outside the root's extents, picking returns
/// none.
pub proof fn lemma_pick_outside_root(tree: Option<Node>, px: int, py: int)
    requires
        tree matches Some(root) ==> !root.extents.spec_contains(px, py),
    ensures
        spec_pick(tree, px, py) is None,
{
}

/// Overlapping siblings tie-break by enumeration order, not by area or
/// stacking: when child `i` is the earliest child of `n` containing the
/// point and a later sibling `j` contains it as well, picking descends
/// into child `i`; the later sibling is never entered.
pub proof fn lemma_sibling_tie_break(n: Node, px: int, py: int, i: int, j: int)
    requires
        0 <= i < j < n.children@.len(),
        n.children@[i].extents.spec_contains(px, py),
        n.children@[j].extents.spec_contains(px, py),
        forall|k: int| 0 <= k < i ==> !(#[trigger] n.children@[k].extents.spec_contains(px, py)),
    ensures
        first_hit(n.children@, px, py) == i,
        pick_from(n, px, py) == pick_from(n.children@[i], px, py),
{
    lemma_first_hit(n.children@, px, py);
    let fh = first_hit(n.children@, px, py);
    if fh < i {
        assert(n.children@[fh].extents.spec_contains(px, py));
        assert(false);
    }
    if fh > i {
        assert(!n.children@[i].extents.spec_contains(px, py));
        assert(false);
    }
}

/// The point lies inside `n`, at each step down `path` inside the chosen
/// child and inside no other sibling, and inside no child of the final
/// node: picking has exactly one way to go.
pub open spec fn unique_chain(n: Node, px: int, py: int, path: Seq<usize>) -> bool
    decreases path.len(),
{
    &&& n.extents.spec_contains(px, py)
    &&& if path.len() == 0 {
        forall|k: int|
            0 <= k < n.children@.len() ==> !(#[trigger] n.children@[k].extents.spec_contains(
                px,
                py,
            ))
    } else {
        &&& (path[0] as int) < n.children@.len()
        &&& (forall|k: int|
            0 <= k < n.children@.len() && k != path[0] as int ==> !(
            #[trigger] n.children@[k].extents.spec_contains(px, py)))
        &&& unique_chain(n.children@[path[0] as int], px, py, path.drop_first())
    }
}

/// For a point inside exactly one leaf and inside each of that leaf's
/// ancestors, with no overlapping sibling containing the point anywhere
/// along the way, picking returns exactly that leaf.
pub proof fn lemma_unique_leaf_is_picked(n: Node, px: int, py: int, path: Seq<usize>)
    requires
        unique_chain(n, px, py, path),
    ensures
        valid_path(n, path),
        pick_from(n, px, py) == node_at(n, path),
        spec_pick(Some(n), px, py) == Some(node_at(n, path)),
    decreases path.len(),
{
    lemma_first_hit(n.children@, px, py);
    let fh = first_hit(n.children@, px, py);
    if path.len() == 0 {
        if fh < n.children@.len() {
            assert(n.children@[fh].extents.spec_contains(px, py));
            assert(false);
        }
    } else {
        let i = path[0] as int;
        assert(unique_chain(n.children@[i], px, py, path.drop_first()));
        assert(n.children@[i].extents.spec_contains(px, py));
        if fh < i {
            assert(n.children@[fh].extents.spec_contains(px, py));
            assert(false);
        }
        if fh > i {
            assert(!n.children@[i].extents.spec_contains(px, py));
            assert(false);
        }
        lemma_unique_leaf_is_picked(n.children@[i], px, py, path.drop_first());
    }
}

/// A valid path stays valid when one more in-range child index is added.
pub proof fn lemma_valid_path_snoc(n: Node, q: Seq<usize>, k: usize)
    requires
        valid_path(n, q),
        (k as int) < node_at(n, q).children@.len(),
    ensures
        valid_path(n, q.push(k)),
        node_at(n, q.push(k)) == node_at(n, q).children@[k as int],
    decreases q.len(),
{
    if q.len() == 0 {
        assert(q.push(k)[0] == k);
        assert(q.push(k).drop_first() =~= Seq::<usize>::empty());
        assert(valid_path(n.children@[k as int], Seq::<usize>::empty()));
        assert(node_at(n.children@[k as int], Seq::<usize>::empty()) == n.children@[k as int]);
    } else {
        lemma_valid_path_snoc(n.children@[q[0] as int], q.drop_first(), k);
        assert(q.push(k)[0] == q[0]);
        assert(q.push(k).drop_first() =~= q.drop_first().push(k));
        assert(valid_path(n, q.push(k)));
        assert(node_at(n, q.push(k)) == node_at(n.children@[q[0] as int], q.drop_first().push(k)));
    }
}

/// An append somewhere in the tree keeps every already-valid path valid,
/// leaves the denoted node's own fields unchanged, and never shrinks any
/// node's list of children: nodes, once appended, are never removed.
pub proof fn lemma_append_preserves_paths(
    pre: Node,
    post: Node,
    apath: Seq<usize>,
    child: Node,
    q: Seq<usize>,
)
    requires
        is_append_at(pre, post, apath, child),
        valid_path(pre, q),
    ensures
        valid_path(post, q),
        node_at(post, q).name == node_at(pre, q).name,
        node_at(post, q).role == node_at(pre, q).role,
        node_at(post, q).extents == node_at(pre, q).extents,
        node_at(post, q).children@.len() >= node_at(pre, q).children@.len(),
    decreases q.len(),
{
    if q.len() == 0 {
    } else {
        let q0 = q[0] as int;
        if apath.len() != 0 && q0 == apath[0] as int {
            lemma_append_preserves_paths(
                pre.children@[q0],
                post.children@[q0],
                apath.drop_first(),
                child,
                q.drop_first(),
            );
        } else {
            assert(post.children@[q0] == pre.children@[q0]);
        }
    }
}

/// After an append at `apath`, the node there has exactly its old children
/// followed by the new child.
pub proof fn lemma_append_new_child(pre: Node, post: Node, apath: Seq<usize>, child: Node)
    requires
        is_append_at(pre, post, apath, child),
        valid_path(pre, apath),
    ensures
        valid_path(post, apath),
        node_at(post, apath).children@ == node_at(pre, apath).children@.push(child),
    decreases apath.len(),
{
    lemma_append_preserves_paths(pre, post, apath, child, apath);
    if apath.len() == 0 {
    } else {
        lemma_append_new_child(
            pre.children@[apath[0] as int],
            post.children@[apath[0] as int],
            apath.drop_first(),
            child,
        );
    }
}

impl Node {
    pub fn new(name: String, role: String, extents: Rect) -> (r: Node)
        ensures
            r.name == name,
            r.role == role,
            r.extents == extents,
            r.children@ =~= Seq::<Node>::empty(),
    {
        Node { name, role, extents, children: Vec::new() }
    }

    /// The most specific node containing `(px, py)`, given that this node's
    /// own extents contain it: the first containing child (enumeration
    /// order) is entered, and siblings after it are never examined.
    pub fn pick(&self, px: i32, py: i32) -> (r: &Node)
        ensures
            *r == pick_from(*self, px as int, py as int),
        decreases *self,
    {
        let n = self.children.len();
        let mut i: usize = 0;
        while i < n
            invariant
                0 <= i <= n,
                n == self.children@.len(),
                forall|j: int|
                    0 <= j < i ==> !(#[trigger] self.children@[j].extents.spec_contains(
                        px as int,
                        py as int,
                    )),
            decreases n - i,
        {
            if self.children[i].extents.contains_point(px, py) {
                proof {
                    lemma_first_hit(self.children@, px as int, py as int);
                }
                assert(first_hit(self.children@, px as int, py as int) == i as int);
                return self.children[i].pick(px, py);
            }
            i = i + 1;
        }
        proof {
            lemma_first_hit(self.children@, px as int, py as int);
        }
        self
    }

    /// Append `child` at the end of the children of the node that
    /// `path[depth..]` denotes, leaving every other node untouched; the
    /// child's new index under its parent is returned.
    pub fn append_at(&mut self, path: &Vec<usize>, depth: usize, child: Node) -> (idx: usize)
        requires
            depth <= path@.len(),
            valid_path(*old(self), path@.skip(depth as int)),
        ensures
            is_append_at(*old(self), *final(self), path@.skip(depth as int), child),
            idx as int == node_at(*old(self), path@.skip(depth as int)).children@.len(),
        decreases path@.len() - depth,
    {
        let ghost rest = path@.skip(depth as int);
        if depth == path.len() {
            assert(rest =~= Seq::<usize>::empty());
            let idx = self.children.len();
            self.children.push(child);
            idx
        } else {
            assert(rest[0] == path@[depth as int]);
            let k = path[depth];
            let ghost pre = self.children@;
            let mut sub = self.children.remove(k);
            let ghost sub_pre = sub;
            assert(rest.drop_first() =~= path@.skip(depth as int + 1));
            let idx = sub.append_at(path, depth + 1, child);
            let ghost sub_post = sub;
            self.children.insert(k, sub);
            proof {
                assert(self.children@ =~= pre.update(k as int, sub_post));
            }
            idx
        }
    }
}

} // verus!
