//! The scene builder: a depth-first walk of the document from its root that
//! emits the primitives of the scene, inside nested spatial scopes, and tags
//! the primitives of nodes that take input with the node's id.

use vstd::prelude::*;
use crate::dom::{NodeId, NodeType, Kind, Rect, Point, Color, Glyph};
use crate::document::{Document, DocModel};

verus! {

/// A spatial scope: the root's, or the scroll frame of a `Scroll` node.
#[derive(Clone, Copy, Debug, PartialEq, Eq, Structural)]
pub enum Space {
    Root,
    Scroll(NodeId),
}

/// One primitive of a scene.
#[derive(Debug)]
pub enum Primitive {
    /// Opens a stacking context over `rect`.
    PushStackingContext { rect: Rect, space: Space },
    /// Closes the last stacking context opened.
    PopStackingContext,
    /// A bordered rectangle; `tag` names the node that hits on it go to.
    Border { rect: Rect, space: Space, tag: Option<NodeId> },
    /// Defines the scroll frame of node `node`, showing `viewport` of
    /// `content`, inside `parent`.
    ScrollFrame { node: NodeId, parent: Space, content: Rect, viewport: Rect },
    /// A transparent rectangle that only takes hits.
    HitRect { rect: Rect, space: Space, tag: Option<NodeId> },
    /// Shaped text in `rect`.
    Text { rect: Rect, space: Space, glyphs: Vec<Glyph>, color: Color },
}

/// What a primitive holds.
pub enum Prim {
    PushStackingContext { rect: Rect, space: Space },
    PopStackingContext,
    Border { rect: Rect, space: Space, tag: Option<NodeId> },
    ScrollFrame { node: NodeId, parent: Space, content: Rect, viewport: Rect },
    HitRect { rect: Rect, space: Space, tag: Option<NodeId> },
    Text { rect: Rect, space: Space, glyphs: Seq<Glyph>, color: Color },
}

impl View for Primitive {
    type V = Prim;

    open spec fn view(&self) -> Prim {
        match self {
            Primitive::PushStackingContext { rect, space } => Prim::PushStackingContext { rect: *rect, space: *space },
            Primitive::PopStackingContext => Prim::PopStackingContext,
            Primitive::Border { rect, space, tag } => Prim::Border { rect: *rect, space: *space, tag: *tag },
            Primitive::ScrollFrame { node, parent, content, viewport } => Prim::ScrollFrame {
                node: *node,
                parent: *parent,
                content: *content,
                viewport: *viewport,
            },
            Primitive::HitRect { rect, space, tag } => Prim::HitRect { rect: *rect, space: *space, tag: *tag },
            Primitive::Text { rect, space, glyphs, color } => Prim::Text {
                rect: *rect,
                space: *space,
                glyphs: glyphs@,
                color: *color,
            },
        }
    }
}

/// The views of a list of primitives.
pub open spec fn prims(v: Seq<Primitive>) -> Seq<Prim> {
    v.map_values(|p: Primitive| p@)
}

/// A scene: primitives in paint order, back to front.
#[derive(Debug)]
pub struct Scene {
    pub items: Vec<Primitive>,
}

/// Why a scene could not be built.
#[derive(Clone, Copy, Debug, PartialEq, Eq, Structural)]
pub enum SceneError {
    /// A node refers to a child that the document does not hold, or the root
    /// is gone.
    MissingNode(NodeId),
    /// A node that draws in its parent's scope has no enclosing scope.
    NoScope,
    /// The tree is deeper than it has nodes: it holds a cycle.
    Cyclic,
}

/// The state of a walk: the primitives emitted and the stack of open scopes.
pub struct Walk {
    pub items: Seq<Prim>,
    pub stack: Seq<Space>,
}

/// The tag of a node's primitive: its id, where it has a callback.
pub open spec fn tag_if(id: NodeId, takes_input: bool) -> Option<NodeId> {
    if takes_input { Some(id) } else { None }
}

/// The rectangle of shaped text placed at `origin`.
pub open spec fn text_rect(origin: Point, width: i32, height: i32) -> Rect {
    Rect { x: origin.x, y: origin.y, width, height }
}

/// Stack `s` with its top scope popped, if it has one.
pub open spec fn popped(s: Seq<Space>) -> Seq<Space> {
    if s.len() > 0 { s.drop_last() } else { s }
}

/// The walk after entering node `id` of kind `k`.
pub open spec fn down(viewport: Rect, id: NodeId, k: Kind, w: Walk) -> Result<Walk, SceneError> {
    match k {
        Kind::Root => Ok(Walk {
            items: w.items.push(Prim::PushStackingContext { rect: viewport, space: Space::Root }),
            stack: w.stack.push(Space::Root),
        }),
        Kind::Div { color, rect, on_click, on_wheel } => if w.stack.len() == 0 {
            Err(SceneError::NoScope)
        } else {
            let space = w.stack.last();
            let tag = tag_if(id, !(on_click is Absent) || !(on_wheel is Absent));
            Ok(Walk {
                items: w.items.push(Prim::Border { rect, space, tag }).push(Prim::PushStackingContext { rect, space }),
                stack: w.stack,
            })
        },
        Kind::Scroll { position, content, on_wheel } => if w.stack.len() == 0 {
            Err(SceneError::NoScope)
        } else {
            let space = Space::Scroll(id);
            Ok(Walk {
                items: w.items.push(Prim::ScrollFrame { node: id, parent: w.stack.last(), content, viewport: position })
                    .push(Prim::HitRect { rect: content, space, tag: tag_if(id, !(on_wheel is Absent)) }),
                stack: w.stack.push(space),
            })
        },
        Kind::Text { text, origin, layout, color } => if w.stack.len() == 0 {
            Err(SceneError::NoScope)
        } else {
            match layout {
                Some(l) => {
                    let rect = text_rect(origin, l.width, l.height);
                    let space = w.stack.last();
                    Ok(Walk {
                        items: w.items.push(Prim::PushStackingContext { rect, space })
                            .push(Prim::Text { rect, space, glyphs: l.glyphs, color }),
                        stack: w.stack,
                    })
                },
                None => Ok(w),
            }
        },
    }
}

/// The walk after leaving a node of kind `k`.
pub open spec fn up(k: Kind, w: Walk) -> Walk {
    match k {
        Kind::Root => Walk { items: w.items.push(Prim::PopStackingContext), stack: popped(w.stack) },
        Kind::Div { .. } => Walk { items: w.items.push(Prim::PopStackingContext), stack: w.stack },
        Kind::Scroll { .. } => Walk { items: w.items, stack: popped(w.stack) },
        Kind::Text { layout, .. } => match layout {
            Some(_) => Walk { items: w.items.push(Prim::PopStackingContext), stack: w.stack },
            None => w,
        },
    }
}

/// The walk after visiting node `id` and its subtree, descending at most
/// `fuel` levels.
pub open spec fn visit_node(d: DocModel, viewport: Rect, id: NodeId, fuel: nat, w: Walk) -> Result<Walk, SceneError>
    decreases fuel, 0nat,
{
    if fuel == 0 {
        Err(SceneError::Cyclic)
    } else if !d.nodes.contains_key(id) {
        Err(SceneError::MissingNode(id))
    } else {
        let n = d.nodes[id];
        match down(viewport, id, n.kind, w) {
            Err(e) => Err(e),
            Ok(w1) => match visit_children(d, viewport, n.children, (fuel - 1) as nat, w1) {
                Err(e) => Err(e),
                Ok(w2) => Ok(up(n.kind, w2)),
            },
        }
    }
}

/// The walk after visiting the nodes `children` in order.
pub open spec fn visit_children(d: DocModel, viewport: Rect, children: Seq<NodeId>, fuel: nat, w: Walk) -> Result<Walk, SceneError>
    decreases fuel, children.len(),
{
    if children.len() == 0 {
        Ok(w)
    } else {
        match visit_node(d, viewport, children[0], fuel, w) {
            Err(e) => Err(e),
            Ok(w1) => visit_children(d, viewport, children.drop_first(), fuel, w1),
        }
    }
}

/// The primitives of the scene of `d`: the walk from the root, with as much
/// fuel as there are nodes. A document without a root has an empty scene.
pub open spec fn scene_of(d: DocModel, viewport: Rect) -> Result<Seq<Prim>, SceneError> {
    match d.root {
        None => Ok(Seq::empty()),
        Some(r) => match visit_node(d, viewport, r, d.nodes.len(), Walk { items: Seq::empty(), stack: Seq::empty() }) {
            Ok(w) => Ok(w.items),
            Err(e) => Err(e),
        },
    }
}

/// How a primitive changes the depth of open stacking contexts.
pub open spec fn sc_delta(p: Prim) -> int {
    match p {
        Prim::PushStackingContext { .. } => 1,
        Prim::PopStackingContext => -1,
        _ => 0,
    }
}

/// The depth of open stacking contexts after `items`.
pub open spec fn sc_depth(items: Seq<Prim>) -> int
    decreases items.len(),
{
    if items.len() == 0 {
        0
    } else {
        sc_depth(items.drop_last()) + sc_delta(items.last())
    }
}

proof fn lemma_depth_push(items: Seq<Prim>, p: Prim)
    ensures
        sc_depth(items.push(p)) == sc_depth(items) + sc_delta(p),
{
    assert(items.push(p).drop_last() =~= items);
}

/// Visiting a subtree leaves the scope stack as it found it, and closes as
/// many stacking contexts as it opens: every scope that a `Root` or a
/// `Scroll` opens on the way down, and every stacking context that a `Root`,
/// a `Div` or a shaped `Text` opens, is closed on the way up.
pub proof fn lemma_visit_balanced(d: DocModel, viewport: Rect, id: NodeId, fuel: nat, w: Walk)
    ensures
        visit_node(d, viewport, id, fuel, w) matches Ok(w2) ==> w2.stack == w.stack
            && sc_depth(w2.items) == sc_depth(w.items),
    decreases fuel, 0nat,
{
    if fuel > 0 && d.nodes.contains_key(id) {
        let n = d.nodes[id];
        if let Ok(w1) = down(viewport, id, n.kind, w) {
            lemma_children_balanced(d, viewport, n.children, (fuel - 1) as nat, w1);
            if let Ok(w2) = visit_children(d, viewport, n.children, (fuel - 1) as nat, w1) {
                match n.kind {
                    Kind::Root => {
                        assert(w1.stack.drop_last() =~= w.stack);
                        lemma_depth_push(w.items, Prim::PushStackingContext { rect: viewport, space: Space::Root });
                        lemma_depth_push(w2.items, Prim::PopStackingContext);
                    },
                    Kind::Scroll { position, content, on_wheel } => {
                        assert(w1.stack.drop_last() =~= w.stack);
                        let space = Space::Scroll(id);
                        let frame = Prim::ScrollFrame { node: id, parent: w.stack.last(), content, viewport: position };
                        lemma_depth_push(w.items, frame);
                        lemma_depth_push(w.items.push(frame), Prim::HitRect { rect: content, space, tag: tag_if(id, !(on_wheel is Absent)) });
                    },
                    Kind::Div { color, rect, on_click, on_wheel } => {
                        let space = w.stack.last();
                        let border = Prim::Border { rect, space, tag: tag_if(id, !(on_click is Absent) || !(on_wheel is Absent)) };
                        lemma_depth_push(w.items, border);
                        lemma_depth_push(w.items.push(border), Prim::PushStackingContext { rect, space });
                        lemma_depth_push(w2.items, Prim::PopStackingContext);
                    },
                    Kind::Text { text, origin, layout, color } => {
                        if let Some(l) = layout {
                            let rect = text_rect(origin, l.width, l.height);
                            let space = w.stack.last();
                            let push = Prim::PushStackingContext { rect, space };
                            lemma_depth_push(w.items, push);
                            lemma_depth_push(w.items.push(push), Prim::Text { rect, space, glyphs: l.glyphs, color });
                            lemma_depth_push(w2.items, Prim::PopStackingContext);
                        }
                    },
                }
            }
        }
    }
}

/// Visiting a list of siblings leaves the scope stack and the depth of open
/// stacking contexts as it found them.
pub proof fn lemma_children_balanced(d: DocModel, viewport: Rect, children: Seq<NodeId>, fuel: nat, w: Walk)
    ensures
        visit_children(d, viewport, children, fuel, w) matches Ok(w2) ==> w2.stack == w.stack
            && sc_depth(w2.items) == sc_depth(w.items),
    decreases fuel, children.len(),
{
    if children.len() > 0 {
        lemma_visit_balanced(d, viewport, children[0], fuel, w);
        if let Ok(w1) = visit_node(d, viewport, children[0], fuel, w) {
            lemma_children_balanced(d, viewport, children.drop_first(), fuel, w1);
        }
    }
}

/// `rank` witnesses that `d` has no cycle and no dangling child: every node
/// has a rank, and each child is held by the document and ranks below its
/// parent.
pub open spec fn ranked(d: DocModel, rank: Map<NodeId, nat>) -> bool {
    forall|k: NodeId| #[trigger] d.nodes.contains_key(k) ==> rank.contains_key(k) && forall|i: int|
        0 <= i < d.nodes[k].children.len() ==> d.nodes.contains_key(#[trigger] d.nodes[k].children[i])
            && rank.contains_key(d.nodes[k].children[i]) && rank[d.nodes[k].children[i]] < rank[k]
}

/// A well-formed tree: a root of kind `Root`, no cycle, no dangling child,
/// and no path longer than there are nodes (a rank below the node count).
pub open spec fn well_formed(d: DocModel, rank: Map<NodeId, nat>) -> bool {
    &&& ranked(d, rank)
    &&& forall|k: NodeId| #[trigger] d.nodes.contains_key(k) ==> rank[k] < d.nodes.len()
    &&& d.root matches Some(r) && d.nodes.contains_key(r) && d.nodes[r].kind is Root
}

/// In a ranked document, visiting a node with more fuel than its rank
/// succeeds, where a scope is open or the node is a `Root`.
pub proof fn lemma_visit_succeeds(d: DocModel, viewport: Rect, id: NodeId, fuel: nat, w: Walk, rank: Map<NodeId, nat>)
    requires
        ranked(d, rank),
        d.nodes.contains_key(id),
        rank[id] < fuel,
        w.stack.len() > 0 || d.nodes[id].kind is Root,
    ensures
        visit_node(d, viewport, id, fuel, w) is Ok,
    decreases fuel, 0nat,
{
    let n = d.nodes[id];
    let w1 = down(viewport, id, n.kind, w)->Ok_0;
    assert(w1.stack.len() > 0);
    lemma_children_succeed(d, viewport, n.children, (fuel - 1) as nat, w1, rank);
}

/// In a ranked document, visiting a list of children with more fuel than
/// their ranks succeeds while a scope is open.
pub proof fn lemma_children_succeed(d: DocModel, viewport: Rect, children: Seq<NodeId>, fuel: nat, w: Walk, rank: Map<NodeId, nat>)
    requires
        ranked(d, rank),
        forall|i: int| 0 <= i < children.len() ==> d.nodes.contains_key(#[trigger] children[i]) && rank[children[i]] < fuel,
        w.stack.len() > 0,
    ensures
        visit_children(d, viewport, children, fuel, w) is Ok,
    decreases fuel, children.len(),
{
    if children.len() > 0 {
        assert(d.nodes.contains_key(children[0]));
        lemma_visit_succeeds(d, viewport, children[0], fuel, w, rank);
        lemma_visit_balanced(d, viewport, children[0], fuel, w);
        let w1 = visit_node(d, viewport, children[0], fuel, w)->Ok_0;
        let rest = children.drop_first();
        assert forall|i: int| 0 <= i < rest.len() implies d.nodes.contains_key(#[trigger] rest[i]) && rank[rest[i]] < fuel by {
            assert(rest[i] == children[i + 1]);
        }
        lemma_children_succeed(d, viewport, rest, fuel, w1, rank);
    }
}

/// The scene of a well-formed tree can always be built, and its walk ends
/// with no scope and no stacking context left open.
pub proof fn lemma_tree_scene(d: DocModel, viewport: Rect, rank: Map<NodeId, nat>)
    requires
        well_formed(d, rank),
    ensures
        scene_of(d, viewport) is Ok,
        visit_node(d, viewport, d.root->0, d.nodes.len(), Walk { items: Seq::empty(), stack: Seq::empty() }) matches Ok(w)
            && w.stack.len() == 0 && sc_depth(w.items) == 0,
{
    let r = d.root->0;
    let w0 = Walk { items: Seq::empty(), stack: Seq::empty() };
    lemma_visit_succeeds(d, viewport, r, d.nodes.len(), w0, rank);
    lemma_visit_balanced(d, viewport, r, d.nodes.len(), w0);
}

/// A copy of a list of glyphs.
fn copy_glyphs(v: &Vec<Glyph>) -> (r: Vec<Glyph>)
    ensures
        r@ == v@,
{
    let mut r: Vec<Glyph> = Vec::new();
    let mut i: usize = 0;
    while i < v.len()
        invariant
            i <= v@.len(),
            r@ == v@.subrange(0, i as int),
        decreases v@.len() - i,
    {
        r.push(v[i]);
        i = i + 1;
        assert(r@ =~= v@.subrange(0, i as int));
    }
    assert(v@.subrange(0, v@.len() as int) =~= v@);
    r
}

/// A walk in progress over a document.
pub struct SceneBuilder {
    items: Vec<Primitive>,
    stack: Vec<Space>,
    viewport: Rect,
}

impl SceneBuilder {
    /// The state of the walk.
    pub closed spec fn walk(&self) -> Walk {
        Walk { items: prims(self.items@), stack: self.stack@ }
    }

    /// The viewport that the root scope covers.
    pub closed spec fn viewport(&self) -> Rect {
        self.viewport
    }

    /// A walk that has emitted nothing, with no scope open.
    pub fn new(viewport: Rect) -> (r: SceneBuilder)
        ensures
            r.walk() == (Walk { items: Seq::empty(), stack: Seq::empty() }),
            r.viewport() == viewport,
    {
        let r = SceneBuilder { items: Vec::new(), stack: Vec::new(), viewport };
        assert(prims(r.items@) =~= Seq::empty());
        r
    }

    /// Emits a primitive.
    fn emit(&mut self, p: Primitive)
        ensures
            final(self).walk() == (Walk { items: old(self).walk().items.push(p@), stack: old(self).walk().stack }),
            final(self).viewport == old(self).viewport,
    {
        let ghost pv = p@;
        self.items.push(p);
        assert(prims(self.items@) =~= prims(old(self).items@).push(pv));
    }

    /// The innermost open scope.
    fn top(&self) -> (r: Option<Space>)
        ensures
            match r {
                Some(sp) => self.stack@.len() > 0 && sp == self.stack@.last(),
                None => self.stack@.len() == 0,
            },
    {
        if self.stack.len() == 0 {
            None
        } else {
            Some(self.stack[self.stack.len() - 1])
        }
    }

    /// Closes the innermost scope, if any.
    fn close(&mut self)
        ensures
            final(self).walk() == (Walk { items: old(self).walk().items, stack: popped(old(self).walk().stack) }),
            final(self).viewport == old(self).viewport,
    {
        let _ = self.stack.pop();
        proof {
            if old(self).stack@.len() > 0 {
                assert(self.stack@ =~= old(self).stack@.drop_last());
            }
        }
    }

    /// Enters node `id`.
    pub fn visit_down(&mut self, id: NodeId, node_type: &NodeType) -> (r: Result<(), SceneError>)
        ensures
            final(self).viewport() == old(self).viewport(),
            match down(old(self).viewport(), id, node_type@, old(self).walk()) {
                Ok(w) => r is Ok && final(self).walk() == w,
                Err(e) => r == Err::<(), SceneError>(e),
            },
    {
        match node_type {
            NodeType::Root => {
                let rect = self.viewport;
                self.emit(Primitive::PushStackingContext { rect, space: Space::Root });
                self.stack.push(Space::Root);
                Ok(())
            },
            NodeType::Div { color: _, rect, on_click, on_wheel } => {
                let space = match self.top() {
                    Some(sp) => sp,
                    None => return Err(SceneError::NoScope),
                };
                let tag = if on_click.is_some() || on_wheel.is_some() { Some(id) } else { None };
                self.emit(Primitive::Border { rect: *rect, space, tag });
                self.emit(Primitive::PushStackingContext { rect: *rect, space });
                Ok(())
            },
            NodeType::Scroll { position, content, on_wheel } => {
                let parent = match self.top() {
                    Some(sp) => sp,
                    None => return Err(SceneError::NoScope),
                };
                let space = Space::Scroll(id);
                self.emit(Primitive::ScrollFrame { node: id, parent, content: *content, viewport: *position });
                let tag = if on_wheel.is_some() { Some(id) } else { None };
                self.emit(Primitive::HitRect { rect: *content, space, tag });
                self.stack.push(space);
                Ok(())
            },
            NodeType::Text { text: _, origin, layout, color } => {
                let space = match self.top() {
                    Some(sp) => sp,
                    None => return Err(SceneError::NoScope),
                };
                match layout {
                    Some(l) => {
                        let rect = Rect { x: origin.x, y: origin.y, width: l.width, height: l.height };
                        self.emit(Primitive::PushStackingContext { rect, space });
                        let glyphs = copy_glyphs(&l.glyphs);
                        self.emit(Primitive::Text { rect, space, glyphs, color: *color });
                    },
                    None => {},
                }
                Ok(())
            },
        }
    }

    /// Leaves a node.
    pub fn visit_up(&mut self, node_type: &NodeType)
        ensures
            final(self).viewport() == old(self).viewport(),
            final(self).walk() == up(node_type@, old(self).walk()),
    {
        match node_type {
            NodeType::Root => {
                self.emit(Primitive::PopStackingContext);
                self.close();
            },
            NodeType::Div { .. } => {
                self.emit(Primitive::PopStackingContext);
            },
            NodeType::Scroll { .. } => {
                self.close();
            },
            NodeType::Text { layout, .. } => {
                if layout.is_some() {
                    self.emit(Primitive::PopStackingContext);
                }
            },
        }
    }

    /// Visits node `id` and its subtree, descending at most `fuel` levels.
    pub fn visit(&mut self, doc: &Document, id: NodeId, fuel: usize) -> (r: Result<(), SceneError>)
        ensures
            final(self).viewport() == old(self).viewport(),
            match visit_node(doc@, old(self).viewport(), id, fuel as nat, old(self).walk()) {
                Ok(w) => r is Ok && final(self).walk() == w,
                Err(e) => r == Err::<(), SceneError>(e),
            },
            r is Ok ==> final(self).walk().stack == old(self).walk().stack,
        decreases fuel,
    {
        proof {
            lemma_visit_balanced(doc@, old(self).viewport(), id, fuel as nat, old(self).walk());
        }
        if fuel == 0 {
            return Err(SceneError::Cyclic);
        }
        let node = match doc.get(id) {
            Some(n) => n,
            None => return Err(SceneError::MissingNode(id)),
        };
        self.visit_down(id, &node.node_type)?;
        let ghost w1 = self.walk();
        let ghost children = node.children@;
        let mut i: usize = 0;
        assert(children.skip(0) =~= children);
        while i < node.children.len()
            invariant
                i <= children.len(),
                fuel > 0,
                children == node.children@,
                doc@.nodes.contains_key(id),
                doc@.nodes[id] == node@,
                down(old(self).viewport(), id, node.node_type@, old(self).walk()) == Ok::<Walk, SceneError>(w1),
                self.viewport() == old(self).viewport(),
                visit_children(doc@, self.viewport(), children, (fuel - 1) as nat, w1)
                    == visit_children(doc@, self.viewport(), children.skip(i as int), (fuel - 1) as nat, self.walk()),
            decreases children.len() - i,
        {
            assert(children.skip(i as int).drop_first() =~= children.skip(i as int + 1));
            self.visit(doc, node.children[i], fuel - 1)?;
            i = i + 1;
        }
        self.visit_up(&node.node_type);
        Ok(())
    }

    /// The primitives emitted.
    pub fn finish(self) -> (r: Scene)
        ensures
            prims(r.items@) == self.walk().items,
    {
        Scene { items: self.items }
    }
}

/// Builds the scene of a document for a viewport: the walk from the root,
/// which may descend as many levels as the document has nodes. The scope
/// stack is empty again at the end.
pub fn build_scene(doc: &Document, viewport: Rect) -> (r: Result<Scene, SceneError>)
    ensures
        match scene_of(doc@, viewport) {
            Ok(items) => r matches Ok(s) && prims(s.items@) == items,
            Err(e) => r matches Err(x) && x == e,
        },
{
    let mut b = SceneBuilder::new(viewport);
    match doc.root_node() {
        None => Ok(b.finish()),
        Some(root) => {
            let fuel = doc.len();
            b.visit(doc, root, fuel)?;
            assert(b.walk().stack.len() == 0);
            Ok(b.finish())
        },
    }
}


/// A tagged primitive under a point: the node it is tagged with, and the
/// point relative to the primitive's origin.
#[derive(Clone, Copy, Debug, PartialEq, Eq, Structural)]
pub struct HitItem {
    pub node: NodeId,
    pub point: Point,
}

/// `p` lies in `r` (the left and top edges in, the right and bottom out).
pub open spec fn contains(r: Rect, p: Point) -> bool {
    r.x <= p.x && p.x < r.x + r.width && r.y <= p.y && p.y < r.y + r.height
}

/// The hit on a primitive over `rect` tagged `tag`, if `p` lies in it.
pub open spec fn hit_on(rect: Rect, tag: Option<NodeId>, p: Point) -> Seq<HitItem> {
    match tag {
        Some(n) => if contains(rect, p) {
            seq![HitItem { node: n, point: Point { x: (p.x - rect.x) as i32, y: (p.y - rect.y) as i32 } }]
        } else {
            Seq::empty()
        },
        None => Seq::empty(),
    }
}

/// The hit on one primitive: only borders and hit rectangles take hits.
pub open spec fn hit_of(item: Prim, p: Point) -> Seq<HitItem> {
    match item {
        Prim::Border { rect, tag, .. } => hit_on(rect, tag, p),
        Prim::HitRect { rect, tag, .. } => hit_on(rect, tag, p),
        _ => Seq::empty(),
    }
}

/// The hits on `items[k..]`, front to back: the last primitive painted first.
pub open spec fn hits_from(items: Seq<Prim>, p: Point, k: int) -> Seq<HitItem>
    decreases items.len() - k,
{
    if k < 0 || k >= items.len() {
        Seq::empty()
    } else {
        hits_from(items, p, k + 1) + hit_of(items[k], p)
    }
}

/// `item` takes hits, is tagged with `n`, and lies under `p`.
pub open spec fn tagged_under(item: Prim, p: Point, n: NodeId) -> bool {
    match item {
        Prim::Border { rect, tag, .. } => tag == Some(n) && contains(rect, p),
        Prim::HitRect { rect, tag, .. } => tag == Some(n) && contains(rect, p),
        _ => false,
    }
}

/// Some hit of `hits` names node `n`.
pub open spec fn names(hits: Seq<HitItem>, n: NodeId) -> bool {
    exists|i: int| 0 <= i < hits.len() && #[trigger] hits[i].node == n
}

/// Some primitive of `items[k..]` that takes hits lies under `p` with tag `n`.
pub open spec fn tags_under(items: Seq<Prim>, p: Point, k: int, n: NodeId) -> bool {
    exists|j: int| k <= j < items.len() && #[trigger] tagged_under(items[j], p, n)
}

/// The nodes that the hits on `items[k..]` name are exactly the tags of the
/// primitives of `items[k..]` that take hits and lie under `p`.
pub proof fn lemma_hit_tags(items: Seq<Prim>, p: Point, k: int)
    requires
        0 <= k,
    ensures
        forall|n: NodeId| #[trigger] names(hits_from(items, p, k), n) <==> tags_under(items, p, k, n),
    decreases items.len() - k,
{
    if k < items.len() {
        lemma_hit_tags(items, p, k + 1);
        let rest = hits_from(items, p, k + 1);
        let own = hit_of(items[k], p);
        let all = hits_from(items, p, k);
        assert(all == rest + own);
        assert forall|n: NodeId| #[trigger] names(all, n) <==> tags_under(items, p, k, n) by {
            assert(names(rest, n) <==> tags_under(items, p, k + 1, n));
            if names(all, n) {
                let i = choose|i: int| 0 <= i < all.len() && #[trigger] all[i].node == n;
                if i < rest.len() {
                    assert(rest[i].node == n);
                    let j = choose|j: int| k + 1 <= j < items.len() && #[trigger] tagged_under(items[j], p, n);
                    assert(tagged_under(items[j], p, n));
                } else {
                    assert(own[i - rest.len()].node == n);
                    assert(tagged_under(items[k], p, n));
                }
            }
            if tags_under(items, p, k, n) {
                let j = choose|j: int| k <= j < items.len() && #[trigger] tagged_under(items[j], p, n);
                if j == k {
                    assert(own.len() == 1 && own[0].node == n);
                    assert(all[rest.len() as int].node == n);
                } else {
                    assert(tags_under(items, p, k + 1, n));
                    let i = choose|i: int| 0 <= i < rest.len() && #[trigger] rest[i].node == n;
                    assert(all[i].node == n);
                }
            }
        }
    }
}

/// The hit on a primitive over `rect` tagged `tag`, if `p` lies in it.
fn hit_rect(rect: Rect, tag: Option<NodeId>, p: Point) -> (r: Option<HitItem>)
    ensures
        match r {
            Some(h) => hit_on(rect, tag, p) == seq![h],
            None => hit_on(rect, tag, p) == Seq::<HitItem>::empty(),
        },
{
    match tag {
        Some(n) => {
            let x = p.x as i64;
            let y = p.y as i64;
            if rect.x as i64 <= x && x < rect.x as i64 + rect.width as i64 && rect.y as i64 <= y
                && y < rect.y as i64 + rect.height as i64 {
                Some(HitItem { node: n, point: Point { x: (x - rect.x as i64) as i32, y: (y - rect.y as i64) as i32 } })
            } else {
                None
            }
        },
        None => None,
    }
}

impl Scene {
    /// The tagged primitives under `p`, front to back. Every primitive is
    /// tested in scene coordinates as it was emitted: scroll offsets applied
    /// since the build, the clip of a scroll frame's viewport, and the origin
    /// of an enclosing scope are not taken into account.
    pub fn hit_test(&self, p: Point) -> (r: Vec<HitItem>)
        ensures
            r@ == hits_from(prims(self.items@), p, 0),
    {
        let ghost items = prims(self.items@);
        let mut out: Vec<HitItem> = Vec::new();
        let mut i: usize = self.items.len();
        while i > 0
            invariant
                i <= self.items@.len(),
                items == prims(self.items@),
                out@ == hits_from(items, p, i as int),
            decreases i,
        {
            i = i - 1;
            let hit = match &self.items[i] {
                Primitive::Border { rect, tag, .. } => hit_rect(*rect, *tag, p),
                Primitive::HitRect { rect, tag, .. } => hit_rect(*rect, *tag, p),
                _ => None,
            };
            assert(items[i as int] == self.items@[i as int]@);
            match hit {
                Some(h) => {
                    out.push(h);
                },
                None => {},
            }
            assert(out@ =~= hits_from(items, p, i as int));
        }
        out
    }
}

} // verus!
