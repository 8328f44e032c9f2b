//! The document tree and the mutation engine that applies decoded updates
//! to it, in order.

use vstd::prelude::*;
use fxhash::FxHashMap;
use crate::dom::{NodeId, NodeType, Kind, Point, ApplyError, AttrEffect, LayoutedText, kind_of_type, set_attr_spec, is_word};
use crate::json::as_u64;
use crate::transport::{Update, UpdateOrLogId};

verus! {

#[verifier::external_type_specification]
#[verifier::external_body]
pub struct ExFxHasher(fxhash::FxHasher);

#[verifier::external_type_specification]
#[verifier::external_body]
#[verifier::reject_recursive_types(H)]
pub struct ExBuildHasherDefault<H>(std::hash::BuildHasherDefault<H>);

/// Relies on `HashMap::get` under the Fx hasher: the value stored at `k`.
#[verifier::external_body]
fn nodes_get(m: &FxHashMap<NodeId, Node>, k: NodeId) -> (r: Option<&Node>)
    ensures
        match r {
            Some(n) => m@.contains_key(k) && m@[k] == *n,
            None => !m@.contains_key(k),
        },
{
    m.get(&k)
}

/// Relies on `HashMap::contains_key` under the Fx hasher.
#[verifier::external_body]
fn nodes_contains(m: &FxHashMap<NodeId, Node>, k: NodeId) -> (r: bool)
    ensures
        r == m@.contains_key(k),
{
    m.contains_key(&k)
}

/// Relies on `HashMap::insert` under the Fx hasher: `k` maps to `v` after,
/// and the value it replaced comes back.
#[verifier::external_body]
fn nodes_insert(m: &mut FxHashMap<NodeId, Node>, k: NodeId, v: Node) -> (r: Option<Node>)
    ensures
        final(m)@ == old(m)@.insert(k, v),
        match r {
            Some(o) => old(m)@.contains_key(k) && o == old(m)@[k],
            None => !old(m)@.contains_key(k),
        },
{
    m.insert(k, v)
}

/// Relies on `HashMap::remove` under the Fx hasher: `k` is gone after, and
/// its value comes back.
#[verifier::external_body]
fn nodes_remove(m: &mut FxHashMap<NodeId, Node>, k: NodeId) -> (r: Option<Node>)
    ensures
        final(m)@ == old(m)@.remove(k),
        match r {
            Some(o) => old(m)@.contains_key(k) && o == old(m)@[k],
            None => !old(m)@.contains_key(k),
        },
{
    m.remove(&k)
}

/// Relies on `HashMap::len` under the Fx hasher: the number of keys.
#[verifier::external_body]
fn nodes_len(m: &FxHashMap<NodeId, Node>) -> (r: usize)
    ensures
        r == m@.len(),
{
    m.len()
}

/// A node: its kind with its attributes, and its children in paint order.
#[derive(Debug)]
pub struct Node {
    pub node_type: NodeType,
    pub children: Vec<NodeId>,
}

/// What a node holds.
pub struct NodeModel {
    pub kind: Kind,
    pub children: Seq<NodeId>,
}

impl View for Node {
    type V = NodeModel;

    open spec fn view(&self) -> NodeModel {
        NodeModel { kind: self.node_type@, children: self.children@ }
    }
}

/// The node tree: nodes by identifier, and the root, if one was created.
#[derive(Debug)]
pub struct Document {
    nodes: FxHashMap<NodeId, Node>,
    root_node: Option<NodeId>,
}

/// What a document holds.
pub struct DocModel {
    pub nodes: Map<NodeId, NodeModel>,
    pub root: Option<NodeId>,
}

impl View for Document {
    type V = DocModel;

    closed spec fn view(&self) -> DocModel {
        DocModel { nodes: self.nodes@.map_values(|n: Node| n@), root: self.root_node }
    }
}

/// A move of the scroll frame of a node to an offset, made without building
/// the scene again.
#[derive(Clone, Copy, Debug, PartialEq, Eq, Structural)]
pub struct ScrollCommand {
    pub node: NodeId,
    pub offset: Point,
}

/// What applying a batch of updates asks of the client.
#[derive(Debug)]
pub struct ApplyOutcome {
    /// The scene must be built again.
    pub needs_rebuild: bool,
    /// The last batch of correlation ids met in the updates.
    pub log_ids: Vec<u64>,
    /// Scroll frames to move, in order.
    pub scrolls: Vec<ScrollCommand>,
    /// Text nodes whose text must be shaped again before the next build.
    pub reshape: Vec<NodeId>,
}

/// What an outcome holds.
pub struct Effects {
    pub needs_rebuild: bool,
    pub log_ids: Seq<u64>,
    pub scrolls: Seq<ScrollCommand>,
    pub reshape: Seq<NodeId>,
}

impl View for ApplyOutcome {
    type V = Effects;

    open spec fn view(&self) -> Effects {
        Effects {
            needs_rebuild: self.needs_rebuild,
            log_ids: self.log_ids@,
            scrolls: self.scrolls@,
            reshape: self.reshape@,
        }
    }
}

/// The effects before any update.
pub open spec fn no_effects() -> Effects {
    Effects { needs_rebuild: false, log_ids: Seq::empty(), scrolls: Seq::empty(), reshape: Seq::empty() }
}

/// `e` with a rebuild asked for.
pub open spec fn rebuilt(e: Effects) -> Effects {
    Effects { needs_rebuild: true, log_ids: e.log_ids, scrolls: e.scrolls, reshape: e.reshape }
}

/// `e` with the effect of setting an attribute of node `id` added.
pub open spec fn with_attr_effect(e: Effects, id: NodeId, eff: AttrEffect) -> Effects {
    match eff {
        AttrEffect::Rebuild => rebuilt(e),
        AttrEffect::Reshape => Effects {
            needs_rebuild: true,
            log_ids: e.log_ids,
            scrolls: e.scrolls,
            reshape: e.reshape.push(id),
        },
        AttrEffect::ScrollTo(p) => Effects {
            needs_rebuild: e.needs_rebuild,
            log_ids: e.log_ids,
            scrolls: e.scrolls.push(ScrollCommand { node: id, offset: p }),
            reshape: e.reshape,
        },
    }
}

/// Index of the first occurrence of `v` in `s`.
pub open spec fn first_index(s: Seq<NodeId>, v: NodeId) -> Option<int>
    decreases s.len(),
{
    if s.len() == 0 {
        None
    } else if s[0] == v {
        Some(0)
    } else {
        match first_index(s.drop_first(), v) {
            Some(i) => Some(i + 1),
            None => None,
        }
    }
}

/// `s` without the first occurrence of `v`, if there is one.
pub open spec fn remove_first(s: Seq<NodeId>, v: NodeId) -> Seq<NodeId> {
    match first_index(s, v) {
        Some(i) => s.remove(i),
        None => s,
    }
}

/// `d` with the children of `id` replaced.
pub open spec fn with_children(d: DocModel, id: NodeId, children: Seq<NodeId>) -> DocModel {
    DocModel {
        nodes: d.nodes.insert(id, NodeModel { kind: d.nodes[id].kind, children }),
        root: d.root,
    }
}

/// The document and effects after one entry, or why it cannot be applied.
pub open spec fn step(d: DocModel, e: Effects, u: UpdateOrLogId) -> Result<(DocModel, Effects), ApplyError> {
    match u {
        UpdateOrLogId::LogIds(ids) => Ok((d, Effects {
            needs_rebuild: e.needs_rebuild,
            log_ids: ids@,
            scrolls: e.scrolls,
            reshape: e.reshape,
        })),
        UpdateOrLogId::Update(Update::MakeNode(m)) => match kind_of_type(m.node_type@) {
            None => Err(ApplyError::UnknownNodeType),
            Some(k) => if d.nodes.contains_key(m.node_id) {
                Err(ApplyError::DuplicateNode(m.node_id))
            } else {
                Ok((DocModel {
                    nodes: d.nodes.insert(m.node_id, NodeModel { kind: k, children: Seq::empty() }),
                    root: if k is Root { Some(m.node_id) } else { d.root },
                }, rebuilt(e)))
            },
        },
        UpdateOrLogId::Update(Update::Destroy(x)) => if !d.nodes.contains_key(x.node_id) {
            Err(ApplyError::UnknownNode(x.node_id))
        } else {
            Ok((DocModel { nodes: d.nodes.remove(x.node_id), root: d.root }, rebuilt(e)))
        },
        UpdateOrLogId::Update(Update::Add(a)) => if a.attribute@ == "children"@ {
            match as_u64(a.value) {
                None => Err(ApplyError::BadValue),
                Some(child) => if !d.nodes.contains_key(child) {
                    Err(ApplyError::UnknownNode(child))
                } else if !d.nodes.contains_key(a.node_id) {
                    Err(ApplyError::UnknownNode(a.node_id))
                } else if a.index > d.nodes[a.node_id].children.len() {
                    Err(ApplyError::BadIndex)
                } else {
                    Ok((with_children(d, a.node_id, d.nodes[a.node_id].children.insert(a.index as int, child)),
                        rebuilt(e)))
                },
            }
        } else if !d.nodes.contains_key(a.node_id) {
            Err(ApplyError::UnknownNode(a.node_id))
        } else {
            Ok((d, rebuilt(e)))
        },
        UpdateOrLogId::Update(Update::Remove(r)) => if r.attribute@ == "children"@ {
            match as_u64(r.value) {
                None => Err(ApplyError::BadValue),
                Some(child) => if !d.nodes.contains_key(r.node_id) {
                    Err(ApplyError::UnknownNode(r.node_id))
                } else {
                    Ok((with_children(d, r.node_id, remove_first(d.nodes[r.node_id].children, child)),
                        rebuilt(e)))
                },
            }
        } else if !d.nodes.contains_key(r.node_id) {
            Err(ApplyError::UnknownNode(r.node_id))
        } else {
            Ok((d, rebuilt(e)))
        },
        UpdateOrLogId::Update(Update::SetAttr(s)) => if !d.nodes.contains_key(s.node_id) {
            Err(ApplyError::UnknownNode(s.node_id))
        } else {
            match set_attr_spec(d.nodes[s.node_id].kind, s.attribute@, s.value) {
                Err(err) => Err(err),
                Ok((k, eff)) => Ok((DocModel {
                    nodes: d.nodes.insert(s.node_id, NodeModel { kind: k, children: d.nodes[s.node_id].children }),
                    root: d.root,
                }, with_attr_effect(e, s.node_id, eff))),
            }
        },
    }
}

/// The document and effects after the entries `us`, applied in order; on the
/// first entry that cannot be applied, its error and the document as the
/// entries before it left it.
pub open spec fn run(d: DocModel, e: Effects, us: Seq<UpdateOrLogId>) -> Result<(DocModel, Effects), (ApplyError, DocModel)>
    decreases us.len(),
{
    if us.len() == 0 {
        Ok((d, e))
    } else {
        match step(d, e, us[0]) {
            Ok((d2, e2)) => run(d2, e2, us.drop_first()),
            Err(err) => Err((err, d)),
        }
    }
}

/// A copy of a list of ids.
fn copy_ids(v: &Vec<u64>) -> (r: Vec<u64>)
    ensures
        r@ == v@,
{
    let mut r: Vec<u64> = Vec::new();
    let mut i: usize = 0;
    while i < v.len()
        invariant
            i <= v@.len(),
            r@ == v@.subrange(0, i as int),
        decreases v@.len() - i,
    {
        r.push(v[i]);
        i = i + 1;
        assert(r@ =~= v@.subrange(0, i as int));
    }
    assert(v@.subrange(0, v@.len() as int) =~= v@);
    r
}

/// Index of the first occurrence of `v` in `s`.
fn find_child(s: &Vec<NodeId>, v: NodeId) -> (r: Option<usize>)
    ensures
        match r {
            Some(i) => i < s@.len() && first_index(s@, v) == Some(i as int),
            None => first_index(s@, v) is None,
        },
{
    let mut i: usize = 0;
    while i < s.len()
        invariant
            i <= s@.len(),
            forall|k: int| 0 <= k < i ==> s@[k] != v,
        decreases s@.len() - i,
    {
        if s[i] == v {
            proof { lemma_first_index_at(s@, v, i as int); }
            return Some(i);
        }
        i = i + 1;
    }
    proof { lemma_first_index_at(s@, v, s@.len() as int); }
    None
}

/// When `v` first occurs at `i` (or, for `i == s.len()`, not at all),
/// `first_index` says so.
proof fn lemma_first_index_at(s: Seq<NodeId>, v: NodeId, i: int)
    requires
        0 <= i <= s.len(),
        forall|k: int| 0 <= k < i ==> s[k] != v,
        i < s.len() ==> s[i] == v,
    ensures
        first_index(s, v) == (if i < s.len() { Some(i) } else { None::<int> }),
    decreases s.len(),
{
    if s.len() > 0 && s[0] != v {
        let t = s.drop_first();
        assert forall|k: int| 0 <= k < i - 1 implies t[k] != v by {
            assert(t[k] == s[k + 1]);
        }
        lemma_first_index_at(t, v, i - 1);
    }
}

impl Document {
    /// An empty document with no root.
    pub fn new() -> (r: Document)
        ensures
            r@.nodes == Map::<NodeId, NodeModel>::empty(),
            r@.root is None,
    {
        let r = Document { nodes: FxHashMap::default(), root_node: None };
        assert(r@.nodes =~= Map::<NodeId, NodeModel>::empty());
        r
    }

    /// The root node's id, once a root was created.
    pub fn root_node(&self) -> (r: Option<NodeId>)
        ensures
            r == self@.root,
    {
        self.root_node
    }

    /// The node `id`.
    pub fn get(&self, id: NodeId) -> (r: Option<&Node>)
        ensures
            match r {
                Some(n) => self@.nodes.contains_key(id) && self@.nodes[id] == n@,
                None => !self@.nodes.contains_key(id),
            },
    {
        nodes_get(&self.nodes, id)
    }

    /// The number of nodes.
    pub fn len(&self) -> (r: usize)
        ensures
            r == self@.nodes.len(),
    {
        proof {
            assert(self.nodes@.dom() =~= self@.nodes.dom());
        }
        nodes_len(&self.nodes)
    }

    /// Installs the shaped layout of a text node's text.
    pub fn set_text_layout(&mut self, id: NodeId, layout: LayoutedText) -> (r: bool)
        ensures
            r == (old(self)@.nodes.contains_key(id) && old(self)@.nodes[id].kind is Text),
            r ==> final(self)@ == (DocModel {
                nodes: old(self)@.nodes.insert(id, NodeModel {
                    kind: Kind::Text {
                        text: old(self)@.nodes[id].kind->Text_text,
                        origin: old(self)@.nodes[id].kind->Text_origin,
                        layout: Some(layout@),
                        color: old(self)@.nodes[id].kind->Text_color,
                    },
                    children: old(self)@.nodes[id].children,
                }),
                root: old(self)@.root,
            }),
            !r ==> final(self)@ == old(self)@,
    {
        let ghost before = self.nodes@;
        match nodes_remove(&mut self.nodes, id) {
            None => {
                assert(self.nodes@ =~= before);
                false
            },
            Some(mut node) => {
                let is_text = match &mut node.node_type {
                    NodeType::Text { layout: slot, .. } => {
                        *slot = Some(layout);
                        true
                    },
                    _ => false,
                };
                nodes_insert(&mut self.nodes, id, node);
                if is_text {
                    assert(self@.nodes =~= old(self)@.nodes.insert(id, node@));
                } else {
                    assert(self.nodes@ =~= before);
                }
                is_text
            },
        }
    }

    /// Puts `node` at `id`, where a node was just taken out.
    fn put_back(&mut self, id: NodeId, node: Node)
        ensures
            final(self)@ == (DocModel { nodes: old(self)@.nodes.insert(id, node@), root: old(self)@.root }),
    {
        nodes_insert(&mut self.nodes, id, node);
        assert(self@.nodes =~= old(self)@.nodes.insert(id, node@));
    }

    /// Takes node `id` out.
    fn take(&mut self, id: NodeId) -> (r: Option<Node>)
        ensures
            match r {
                Some(n) => old(self)@.nodes.contains_key(id) && old(self)@.nodes[id] == n@
                    && final(self)@ == (DocModel { nodes: old(self)@.nodes.remove(id), root: old(self)@.root }),
                None => !old(self)@.nodes.contains_key(id) && final(self)@ == old(self)@,
            },
    {
        let ghost before = self.nodes@;
        let r = nodes_remove(&mut self.nodes, id);
        assert(self@.nodes =~= old(self)@.nodes.remove(id));
        proof {
            if r is Some {
                assert(old(self)@.nodes.contains_key(id));
                assert(old(self)@.nodes[id] == before[id]@);
            } else {
                assert(self@.nodes =~= old(self)@.nodes);
            }
        }
        r
    }

    /// Applies one entry, adding its effects to `out`. On failure the
    /// document is left as it was.
    pub fn apply_update(&mut self, u: &UpdateOrLogId, out: &mut ApplyOutcome) -> (r: Result<(), ApplyError>)
        ensures
            match step(old(self)@, old(out)@, *u) {
                Ok((d, e)) => r is Ok && final(self)@ == d && final(out)@ == e,
                Err(err) => r == Err::<(), ApplyError>(err) && final(self)@ == old(self)@,
            },
    {
        match u {
            UpdateOrLogId::LogIds(ids) => {
                out.log_ids = copy_ids(ids);
                Ok(())
            },
            UpdateOrLogId::Update(Update::MakeNode(m)) => {
                let node_type = match NodeType::create(&m.node_type) {
                    Some(t) => t,
                    None => return Err(ApplyError::UnknownNodeType),
                };
                if nodes_contains(&self.nodes, m.node_id) {
                    proof { assert(self.nodes@.dom() =~= self@.nodes.dom()); }
                    return Err(ApplyError::DuplicateNode(m.node_id));
                }
                proof { assert(self.nodes@.dom() =~= self@.nodes.dom()); }
                if let NodeType::Root = node_type {
                    self.root_node = Some(m.node_id);
                }
                let node = Node { node_type, children: Vec::new() };
                self.put_back(m.node_id, node);
                out.needs_rebuild = true;
                Ok(())
            },
            UpdateOrLogId::Update(Update::Destroy(x)) => {
                match self.take(x.node_id) {
                    Some(_) => {
                        out.needs_rebuild = true;
                        Ok(())
                    },
                    None => Err(ApplyError::UnknownNode(x.node_id)),
                }
            },
            UpdateOrLogId::Update(Update::Add(a)) => {
                if is_word(&a.attribute, "children") {
                    let child = match a.value.as_u64() {
                        Some(c) => c,
                        None => return Err(ApplyError::BadValue),
                    };
                    if !nodes_contains(&self.nodes, child) {
                        proof { assert(self.nodes@.dom() =~= self@.nodes.dom()); }
                        return Err(ApplyError::UnknownNode(child));
                    }
                    proof { assert(self.nodes@.dom() =~= self@.nodes.dom()); }
                    let mut node = match self.take(a.node_id) {
                        Some(n) => n,
                        None => return Err(ApplyError::UnknownNode(a.node_id)),
                    };
                    if a.index > node.children.len() {
                        self.put_back(a.node_id, node);
                        proof { assert(self@.nodes =~= old(self)@.nodes); }
                        return Err(ApplyError::BadIndex);
                    }
                    node.children.insert(a.index, child);
                    let ghost nv = node@;
                    self.put_back(a.node_id, node);
                    assert(self@.nodes =~= old(self)@.nodes.insert(a.node_id, nv));
                } else if !nodes_contains(&self.nodes, a.node_id) {
                    proof { assert(self.nodes@.dom() =~= self@.nodes.dom()); }
                    return Err(ApplyError::UnknownNode(a.node_id));
                } else {
                    proof { assert(self.nodes@.dom() =~= self@.nodes.dom()); }
                }
                out.needs_rebuild = true;
                Ok(())
            },
            UpdateOrLogId::Update(Update::Remove(rm)) => {
                if is_word(&rm.attribute, "children") {
                    let child = match rm.value.as_u64() {
                        Some(c) => c,
                        None => return Err(ApplyError::BadValue),
                    };
                    let mut node = match self.take(rm.node_id) {
                        Some(n) => n,
                        None => return Err(ApplyError::UnknownNode(rm.node_id)),
                    };
                    if let Some(i) = find_child(&node.children, child) {
                        node.children.remove(i);
                    }
                    let ghost nv = node@;
                    self.put_back(rm.node_id, node);
                    assert(self@.nodes =~= old(self)@.nodes.insert(rm.node_id, nv));
                } else if !nodes_contains(&self.nodes, rm.node_id) {
                    proof { assert(self.nodes@.dom() =~= self@.nodes.dom()); }
                    return Err(ApplyError::UnknownNode(rm.node_id));
                } else {
                    proof { assert(self.nodes@.dom() =~= self@.nodes.dom()); }
                }
                out.needs_rebuild = true;
                Ok(())
            },
            UpdateOrLogId::Update(Update::SetAttr(sa)) => {
                let mut node = match self.take(sa.node_id) {
                    Some(n) => n,
                    None => return Err(ApplyError::UnknownNode(sa.node_id)),
                };
                let res = node.node_type.set_attr(&sa.attribute, &sa.value);
                let ghost nv = node@;
                self.put_back(sa.node_id, node);
                assert(self@.nodes =~= old(self)@.nodes.insert(sa.node_id, nv));
                match res {
                    Ok(AttrEffect::Rebuild) => {
                        out.needs_rebuild = true;
                        Ok(())
                    },
                    Ok(AttrEffect::Reshape) => {
                        out.needs_rebuild = true;
                        out.reshape.push(sa.node_id);
                        Ok(())
                    },
                    Ok(AttrEffect::ScrollTo(p)) => {
                        out.scrolls.push(ScrollCommand { node: sa.node_id, offset: p });
                        Ok(())
                    },
                    Err(e) => {
                        proof { assert(self@.nodes =~= old(self)@.nodes); }
                        Err(e)
                    },
                }
            },
        }
    }

    /// Applies a batch of entries strictly in order. It stops at the first
    /// entry that cannot be applied and returns its error, with the document
    /// as the entries before it left it.
    pub fn apply_updates(&mut self, updates: &Vec<UpdateOrLogId>) -> (r: Result<ApplyOutcome, ApplyError>)
        ensures
            match run(old(self)@, no_effects(), updates@) {
                Ok((d, e)) => r matches Ok(o) && final(self)@ == d && o@ == e,
                Err((err, d)) => r == Err::<ApplyOutcome, ApplyError>(err) && final(self)@ == d,
            },
    {
        let mut out = ApplyOutcome {
            needs_rebuild: false,
            log_ids: Vec::new(),
            scrolls: Vec::new(),
            reshape: Vec::new(),
        };
        let mut i: usize = 0;
        assert(updates@.skip(0) =~= updates@);
        while i < updates.len()
            invariant
                i <= updates@.len(),
                run(old(self)@, no_effects(), updates@) == run(self@, out@, updates@.skip(i as int)),
            decreases updates@.len() - i,
        {
            assert(updates@.skip(i as int).drop_first() =~= updates@.skip(i as int + 1));
            assert(updates@.skip(i as int)[0] == updates@[i as int]);
            match self.apply_update(&updates[i], &mut out) {
                Ok(()) => {},
                Err(e) => return Err(e),
            }
            i = i + 1;
        }
        Ok(out)
    }
}

} // verus!
