//! The inspected tree, its cancellable incremental build, and the pointer
//! handling on top of it.
//!
//! The build is a state machine: an outside driver performs each
//! asynchronous fetch that a returned [`Action`] requests and reports its
//! outcome back through [`Overview::on_attributes`],
//! [`Overview::on_children`] and [`Overview::on_failure`]. Every event
//! carries the generation the build was started with; an event from a
//! cancelled build — an older generation — changes nothing. The traversal
//! is depth-first, left to right, strictly sequential, and appends each
//! node to the tree the moment its attributes arrive, so the tree can be
//! rendered and picked at every intermediate state.

use vstd::prelude::*;

use crate::geometry::{scale_of, spec_scale_of, spec_to_tree, to_tree, Rect, Scale};
use crate::highlight::HighlightState;
use crate::tree::{
    is_append_at, lemma_append_new_child, lemma_append_preserves_paths, lemma_valid_path_snoc,
    node_at, pick_in_tree, spec_pick, valid_path, Node,
};

verus! {

/// An opaque pair naming an accessible object on the bus. The tree does
/// not keep identities; they are only handed back and forth to issue
/// fetches.
#[derive(Debug, PartialEq, Eq)]
pub struct Identity {
    pub destination: String,
    pub path: String,
}

/// One object's attributes as a fetch reports them.
#[derive(Debug, PartialEq, Eq)]
pub struct Attributes {
    /// Display name; may be empty.
    pub name: String,
    /// Display name of the enumerated role.
    pub role: String,
    /// The screen extents, or none when the object exposes no geometry;
    /// the node then gets the sentinel rectangle.
    pub extents: Option<Rect>,
}

/// What the driver must do next.
#[derive(Debug, PartialEq, Eq)]
pub enum Action {
    /// Fetch the identity's name, role and extents, then report them
    /// through `on_attributes`, handing the identity back.
    FetchAttributes(Identity),
    /// Fetch the identity's ordered child identities, then report them
    /// through `on_children`.
    FetchChildren(Identity),
    /// The build finished; nothing is pending.
    Finished,
    /// The build failed; surface a transient notification once and leave
    /// the partial tree in place.
    Notify,
    /// The event was stale or out of place; nothing happened.
    Ignored,
}

/// One pending stretch of work: the children of the node at `parent_path`
/// that are still to be fetched, in enumeration order.
#[derive(Debug)]
pub struct Frame {
    pub parent_path: Vec<usize>,
    pub remaining: Vec<Identity>,
}

/// Where the build stands.
#[derive(Clone, Copy, Debug, PartialEq, Eq, Structural)]
pub enum Phase {
    /// No build is running.
    Idle,
    /// Waiting for the root's attributes.
    AwaitRootAttrs,
    /// Waiting for the attributes of a child already taken off the top
    /// frame.
    AwaitChildAttrs,
    /// Waiting for the child list of the node the top work frame was
    /// opened for.
    AwaitChildren,
    /// Every node was fetched.
    Done,
    /// A fetch failed; the partial tree is kept.
    Failed,
}

/// The next build generation; the counter wraps rather than ever refusing
/// to clear.
pub open spec fn next_gen(g: u64) -> u64 {
    if g == u64::MAX {
        0
    } else {
        (g + 1) as u64
    }
}

/// Cancelling always moves the generation on, so no event of the
/// cancelled build can ever match the current generation again.
pub proof fn lemma_next_gen_differs(g: u64)
    ensures
        next_gen(g) != g,
{
}

/// `n` is the node a single fetched attribute record denotes: no children
/// yet, and the sentinel extents when the object exposed no geometry.
pub open spec fn is_node_of(n: Node, attrs: Attributes) -> bool {
    &&& n.name == attrs.name
    &&& n.role == attrs.role
    &&& n.extents == match attrs.extents {
        Option::Some(r) => r,
        Option::None => Rect { x: 0, y: 0, width: 0, height: 0 },
    }
    &&& n.children@.len() == 0
}

/// Index of the deepest frame that still has pending identities, or `-1`
/// when every frame is exhausted.
pub open spec fn last_live(stack: Seq<Frame>) -> int
    decreases stack.len(),
{
    if stack.len() == 0 {
        -1int
    } else if stack.last().remaining@.len() > 0 {
        stack.len() - 1
    } else {
        last_live(stack.drop_last())
    }
}

/// The inspected accessibility tree with its build and highlight state.
/// The tree only ever grows while a build runs, and is replaced or dropped
/// wholesale by `set_accessible` and `clear`.
#[derive(Debug)]
pub struct Overview {
    /// The tree built so far; pickable and renderable at every
    /// intermediate state.
    pub tree: Option<Node>,
    /// The highlight rectangles, cleared with the tree.
    pub highlight: HighlightState,
    /// Pending work, outermost ancestor at the bottom; while the phase is
    /// `AwaitChildren`, the top frame names the node whose child list has
    /// been requested.
    pub stack: Vec<Frame>,
    /// Where the build stands.
    pub phase: Phase,
    /// The running build's generation; bumped whenever a build is
    /// cancelled or started, so events of earlier builds fall dead.
    pub generation: u64,
}

impl Overview {
    /// Every recorded path denotes a node of the current tree.
    pub open spec fn wf(self) -> bool {
        &&& (self.phase == Phase::AwaitRootAttrs ==> self.tree is None && self.stack@.len() == 0)
        &&& (self.phase == Phase::AwaitChildAttrs ==> self.tree is Some && self.stack@.len() > 0)
        &&& (self.phase == Phase::AwaitChildren ==> self.tree is Some && self.stack@.len() > 0)
        &&& (forall|i: int|
            0 <= i < self.stack@.len() ==> self.tree is Some && valid_path(
                self.tree->Some_0,
                #[trigger] self.stack@[i].parent_path@,
            ))
    }

    pub fn new() -> (s: Overview)
        ensures
            s.tree is None,
            s.highlight.picked is None,
            s.highlight.hovered is None,
            s.phase == Phase::Idle,
            s.generation == 0,
            s.wf(),
    {
        Overview {
            tree: None,
            highlight: HighlightState::new(),
            stack: Vec::new(),
            phase: Phase::Idle,
            generation: 0,
        }
    }

    /// Cancel any running build. The partial tree stays exactly as it is;
    /// no event of the cancelled build will ever mutate it again, because
    /// the generation moves on.
    pub fn cancel(&mut self)
        ensures
            final(self).tree == old(self).tree,
            final(self).highlight == old(self).highlight,
            final(self).stack@.len() == 0,
            final(self).phase == Phase::Idle,
            final(self).generation == next_gen(old(self).generation),
            old(self).wf() ==> final(self).wf(),
    {
        self.bump_generation();
        self.stack.clear();
        self.phase = Phase::Idle;
    }

    /// Drop the tree: cancels the build, forgets every node, and resets
    /// both highlight rectangles, whatever their prior state.
    pub fn clear(&mut self)
        ensures
            final(self).tree is None,
            final(self).highlight.picked is None,
            final(self).highlight.hovered is None,
            final(self).stack@.len() == 0,
            final(self).phase == Phase::Idle,
            final(self).generation == next_gen(old(self).generation),
            final(self).wf(),
    {
        self.cancel();
        self.tree = None;
        self.highlight.clear();
    }

    /// Start a build rooted at `root`: any running build is cancelled, the
    /// old tree and highlights are dropped, and the driver is asked for
    /// the root's attributes under the new generation.
    pub fn set_accessible(&mut self, root: Identity) -> (a: Action)
        ensures
            final(self).tree is None,
            final(self).highlight.picked is None,
            final(self).highlight.hovered is None,
            final(self).stack@.len() == 0,
            final(self).phase == Phase::AwaitRootAttrs,
            final(self).generation == next_gen(old(self).generation),
            a == Action::FetchAttributes(root),
            final(self).wf(),
    {
        self.clear();
        self.phase = Phase::AwaitRootAttrs;
        Action::FetchAttributes(root)
    }

    fn bump_generation(&mut self)
        ensures
            final(self).generation == next_gen(old(self).generation),
            final(self).tree == old(self).tree,
            final(self).highlight == old(self).highlight,
            final(self).stack == old(self).stack,
            final(self).phase == old(self).phase,
    {
        if self.generation == u64::MAX {
            self.generation = 0;
        } else {
            self.generation = self.generation + 1;
        }
    }

    /// The driver answered a `FetchAttributes`: `id` is the identity it
    /// fetched, handed back, and `gen` the generation the build carries.
    /// For the root this publishes the single-node tree at once; for a
    /// child it appends the new node under the parent recorded on the top
    /// work frame, where picking and rendering see it immediately. Either
    /// way the new node's children are requested next. A stale or
    /// out-of-place event changes nothing at all.
    pub fn on_attributes(&mut self, gen: u64, id: Identity, attrs: Attributes) -> (a: Action)
        requires
            old(self).wf(),
        ensures
            final(self).wf(),
            !(gen == old(self).generation && (old(self).phase == Phase::AwaitRootAttrs || old(
                self,
            ).phase == Phase::AwaitChildAttrs)) ==> *final(self) == *old(self) && a
                == Action::Ignored,
            (gen == old(self).generation && old(self).phase == Phase::AwaitRootAttrs) ==> ({
                &&& final(self).tree matches Some(root) && is_node_of(root, attrs)
                &&& final(self).phase == Phase::AwaitChildren
                &&& final(self).stack@.len() == 1
                &&& final(self).stack@[0].parent_path@.len() == 0
                &&& final(self).highlight == old(self).highlight
                &&& final(self).generation == old(self).generation
                &&& a == Action::FetchChildren(id)
            }),
            (gen == old(self).generation && old(self).phase == Phase::AwaitChildAttrs) ==> ({
                let pre = old(self).tree->Some_0;
                let ppath = old(self).stack@.last().parent_path@;
                &&& final(self).tree is Some
                &&& exists|c: Node|
                    is_node_of(c, attrs) && #[trigger] is_append_at(
                        pre,
                        final(self).tree->Some_0,
                        ppath,
                        c,
                    )
                &&& final(self).phase == Phase::AwaitChildren
                &&& final(self).stack@.len() == old(self).stack@.len() + 1
                &&& (forall|i: int|
                    0 <= i < old(self).stack@.len() ==> final(self).stack@[i] == old(
                        self,
                    ).stack@[i])
                &&& final(self).stack@.last().parent_path@ == ppath.push(
                    node_at(pre, ppath).children@.len() as usize,
                )
                &&& final(self).stack@.last().remaining@.len() == 0
                &&& final(self).highlight == old(self).highlight
                &&& final(self).generation == old(self).generation
                &&& a == Action::FetchChildren(id)
            }),
    {
        if gen != self.generation {
            return Action::Ignored;
        }
        if self.phase == Phase::AwaitRootAttrs {
            let ext = match attrs.extents {
                Option::Some(r) => r,
                Option::None => Rect::sentinel(),
            };
            let node = Node::new(attrs.name, attrs.role, ext);
            self.tree = Some(node);
            self.stack.push(Frame { parent_path: Vec::new(), remaining: Vec::new() });
            self.phase = Phase::AwaitChildren;
            Action::FetchChildren(id)
        } else if self.phase == Phase::AwaitChildAttrs {
            let ghost pre = self.tree->Some_0;
            let ghost ppath = self.stack@.last().parent_path@;
            let ext = match attrs.extents {
                Option::Some(r) => r,
                Option::None => Rect::sentinel(),
            };
            let node = Node::new(attrs.name, attrs.role, ext);
            let ghost node_g = node;
            let top_i = self.stack.len() - 1;
            assert(self.stack@[top_i as int].parent_path@ == ppath);
            let idx = match &mut self.tree {
                Option::Some(root) => {
                    assert(self.stack@[top_i as int].parent_path@.skip(0)
                        =~= self.stack@[top_i as int].parent_path@);
                    root.append_at(&self.stack[top_i].parent_path, 0, node)
                },
                Option::None => {
                    // unreachable: in this phase the tree is always present
                    assert(false);
                    0
                },
            };
            let ghost post = self.tree->Some_0;
            proof {
                assert(is_node_of(node_g, attrs) && is_append_at(pre, post, ppath, node_g));
                lemma_append_new_child(pre, post, ppath, node_g);
                assert forall|i: int| 0 <= i < self.stack@.len() implies valid_path(
                    post,
                    #[trigger] self.stack@[i].parent_path@,
                ) by {
                    lemma_append_preserves_paths(
                        pre,
                        post,
                        ppath,
                        node_g,
                        self.stack@[i].parent_path@,
                    );
                }
                lemma_valid_path_snoc(post, ppath, idx);
            }
            let mut child_path = copy_path(&self.stack[top_i].parent_path);
            child_path.push(idx);
            self.stack.push(Frame { parent_path: child_path, remaining: Vec::new() });
            self.phase = Phase::AwaitChildren;
            Action::FetchChildren(id)
        } else {
            Action::Ignored
        }
    }

    /// The driver answered a `FetchChildren` with the ordered child
    /// identities of the node the top work frame was opened for. They
    /// become that frame's pending work, and the walk advances to the next
    /// pending fetch — depth first, left to right — popping every frame
    /// whose work is done. The tree itself does not change here. A stale
    /// or out-of-place event changes nothing at all.
    pub fn on_children(&mut self, gen: u64, ids: Vec<Identity>) -> (a: Action)
        requires
            old(self).wf(),
        ensures
            final(self).wf(),
            !(gen == old(self).generation && old(self).phase == Phase::AwaitChildren)
                ==> *final(self) == *old(self) && a == Action::Ignored,
            (gen == old(self).generation && old(self).phase == Phase::AwaitChildren) ==> ({
                let top = old(self).stack@.len() - 1;
                let s0 = old(self).stack@.update(
                    top,
                    Frame { parent_path: old(self).stack@.last().parent_path, remaining: ids },
                );
                let k = last_live(s0);
                &&& final(self).tree == old(self).tree
                &&& final(self).highlight == old(self).highlight
                &&& final(self).generation == old(self).generation
                &&& (k < 0 ==> final(self).phase == Phase::Done && final(self).stack@.len() == 0
                    && a == Action::Finished)
                &&& (k >= 0 ==> {
                    &&& final(self).phase == Phase::AwaitChildAttrs
                    &&& a == Action::FetchAttributes(s0[k].remaining@[0])
                    &&& final(self).stack@.len() == k + 1
                    &&& (forall|i: int| 0 <= i < k ==> final(self).stack@[i] == s0[i])
                    &&& final(self).stack@[k].parent_path == s0[k].parent_path
                    &&& final(self).stack@[k].remaining@ == s0[k].remaining@.drop_first()
                })
            }),
    {
        if !(gen == self.generation && self.phase == Phase::AwaitChildren) {
            return Action::Ignored;
        }
        let top_i = self.stack.len() - 1;
        let mut top = self.stack.remove(top_i);
        top.remaining = ids;
        self.stack.push(top);
        let ghost s0 = self.stack@;
        assert(s0 =~= old(self).stack@.update(
            top_i as int,
            Frame { parent_path: old(self).stack@.last().parent_path, remaining: ids },
        ));
        while self.stack.len() > 0 && self.stack[self.stack.len() - 1].remaining.len() == 0
            invariant
                self.stack@.len() <= s0.len(),
                forall|i: int| 0 <= i < self.stack@.len() ==> self.stack@[i] == s0[i],
                last_live(self.stack@) == last_live(s0),
                self.tree == old(self).tree,
                self.highlight == old(self).highlight,
                self.generation == old(self).generation,
                self.phase == old(self).phase,
            decreases self.stack@.len(),
        {
            proof {
                assert(self.stack@.last().remaining@.len() == 0);
                assert(last_live(self.stack@) == last_live(self.stack@.drop_last()));
                assert(self.stack@.drop_last() =~= self.stack@.subrange(
                    0,
                    self.stack@.len() - 1,
                ));
            }
            let _popped = self.stack.pop();
        }
        if self.stack.len() == 0 {
            proof {
                assert(last_live(s0) == -1);
            }
            self.phase = Phase::Done;
            Action::Finished
        } else {
            let live_i = self.stack.len() - 1;
            proof {
                assert(self.stack@.last() == self.stack@[live_i as int]);
                assert(self.stack@.last().remaining@.len() > 0);
                assert(last_live(self.stack@) == live_i as int);
                assert(last_live(s0) == live_i as int);
                assert(self.stack@[live_i as int] == s0[live_i as int]);
            }
            let ghost before = self.stack@;
            let mut live = self.stack.remove(live_i);
            let id = live.remaining.remove(0);
            proof {
                assert(live.remaining@ =~= s0[live_i as int].remaining@.drop_first());
            }
            self.stack.push(live);
            proof {
                assert(self.stack@.len() == live_i + 1);
                assert(before.remove(live_i as int) =~= before.drop_last());
                assert(forall|i: int| 0 <= i < live_i ==> self.stack@[i] == s0[i]);
                assert(self.stack@[live_i as int].parent_path == s0[live_i as int].parent_path);
                // every kept frame's path is one the old state already held
                // valid, and the tree did not change
                assert forall|i: int| 0 <= i < self.stack@.len() implies old(self).tree is Some
                    && valid_path(
                    old(self).tree->Some_0,
                    #[trigger] self.stack@[i].parent_path@,
                ) by {
                    assert(self.stack@[i].parent_path == s0[i].parent_path);
                    if i < old(self).stack@.len() - 1 {
                        assert(s0[i] == old(self).stack@[i]);
                    } else {
                        assert(s0[i].parent_path == old(self).stack@[i].parent_path);
                    }
                }
            }
            self.phase = Phase::AwaitChildAttrs;
            Action::FetchAttributes(id)
        }
    }

    /// The driver's fetch failed: the whole build stops where it stands.
    /// Nodes already appended are kept — the partial tree stays pickable
    /// and renderable — and one notification is asked for; repeats and
    /// stale events report nothing further.
    pub fn on_failure(&mut self, gen: u64) -> (a: Action)
        ensures
            old(self).wf() ==> final(self).wf(),
            !(gen == old(self).generation && (old(self).phase == Phase::AwaitRootAttrs || old(
                self,
            ).phase == Phase::AwaitChildAttrs || old(self).phase == Phase::AwaitChildren))
                ==> *final(self) == *old(self) && a == Action::Ignored,
            (gen == old(self).generation && (old(self).phase == Phase::AwaitRootAttrs || old(
                self,
            ).phase == Phase::AwaitChildAttrs || old(self).phase == Phase::AwaitChildren)) ==> ({
                &&& final(self).tree == old(self).tree
                &&& final(self).highlight == old(self).highlight
                &&& final(self).generation == old(self).generation
                &&& final(self).phase == Phase::Failed
                &&& a == Action::Notify
            }),
    {
        if gen == self.generation && (self.phase == Phase::AwaitRootAttrs || self.phase
            == Phase::AwaitChildAttrs || self.phase == Phase::AwaitChildren) {
            self.phase = Phase::Failed;
            Action::Notify
        } else {
            Action::Ignored
        }
    }

    /// The scale the overlay draws the tree at, against a viewport of
    /// `vw` by `vh`.
    pub fn view_scale(&self, vw: i32, vh: i32) -> (s: Scale)
        requires
            vw >= 0,
            vh >= 0,
        ensures
            s == self.spec_view_scale(vw, vh),
            s.wf(),
    {
        match &self.tree {
            Option::Some(root) => scale_of(vw, vh, root.extents.width, root.extents.height),
            Option::None => Scale { num: 1, den: 1 },
        }
    }

    pub open spec fn spec_view_scale(self, vw: i32, vh: i32) -> Scale {
        match self.tree {
            Option::Some(root) => spec_scale_of(vw, vh, root.extents.width, root.extents.height),
            Option::None => Scale { num: 1, den: 1 },
        }
    }

    /// Resolve an overlay pointer position against the tree: the position
    /// is divided by the drawing scale back into tree space, and the most
    /// specific node containing the resulting point is returned, or none —
    /// also when there is no tree at all.
    pub fn pick_at(&self, px: i32, py: i32, vw: i32, vh: i32) -> (r: Option<&Node>)
        requires
            vw >= 0,
            vh >= 0,
        ensures
            ({
                let s = self.spec_view_scale(vw, vh);
                let q = spec_pick(
                    self.tree,
                    spec_to_tree(px, s) as int,
                    spec_to_tree(py, s) as int,
                );
                &&& (r is Some <==> q is Some)
                &&& (r matches Some(node) ==> q == Some(*node))
            }),
    {
        let s = self.view_scale(vw, vh);
        let qx = to_tree(px, s);
        let qy = to_tree(py, s);
        pick_in_tree(&self.tree, qx, qy)
    }
}

fn copy_path(p: &Vec<usize>) -> (r: Vec<usize>)
    ensures
        r@ == p@,
{
    let mut r: Vec<usize> = Vec::new();
    let mut i: usize = 0;
    while i < p.len()
        invariant
            i <= p@.len(),
            r@ == p@.take(i as int),
        decreases p@.len() - i,
    {
        assert(p@.take(i + 1 as int) =~= p@.take(i as int).push(p@[i as int]));
        r.push(p[i]);
        i = i + 1;
    }
    proof {
        assert(p@.take(p@.len() as int) =~= p@);
    }
    r
}

} // verus!
