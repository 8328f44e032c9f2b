//! Properties of the mutation engine that relate several updates.

use vstd::prelude::*;
use crate::dom::{NodeId, kind_of_type, point_of, rect_of};
use crate::document::{DocModel, Effects, run, step, no_effects, first_index};
use crate::dom::ApplyError;
use crate::json::as_u64;
use crate::transport::{Update, UpdateOrLogId};

verus! {

/// Where `v` does not occur before `i`, its first occurrence after inserting
/// it at `i` is at `i`.
proof fn lemma_first_index_inserted(s: Seq<NodeId>, i: int, v: NodeId)
    requires
        0 <= i <= s.len(),
        forall|k: int| 0 <= k < i ==> s[k] != v,
    ensures
        first_index(s.insert(i, v), v) == Some(i),
    decreases s.len(),
{
    let t = s.insert(i, v);
    if i > 0 {
        assert(t.drop_first() =~= s.drop_first().insert(i - 1, v));
        lemma_first_index_inserted(s.drop_first(), i - 1, v);
    }
}

/// The entry that adds `child` to the children of `parent` at `index`.
pub open spec fn adds_child(u: UpdateOrLogId, parent: NodeId, index: usize, child: NodeId) -> bool {
    match u {
        UpdateOrLogId::Update(Update::Add(a)) => a.node_id == parent && a.attribute@ == "children"@
            && a.index == index && as_u64(a.value) == Some(child),
        _ => false,
    }
}

/// The entry that removes `child` from the children of `parent`.
pub open spec fn removes_child(u: UpdateOrLogId, parent: NodeId, child: NodeId) -> bool {
    match u {
        UpdateOrLogId::Update(Update::Remove(r)) => r.node_id == parent && r.attribute@ == "children"@
            && as_u64(r.value) == Some(child),
        _ => false,
    }
}

/// Adding a child at an index and then removing that child gives the
/// document back as it was, the parent's children included, wherever the
/// child does not already occur before that index (removal takes the first
/// occurrence).
pub proof fn lemma_add_remove_round_trip(d: DocModel, e: Effects, add: UpdateOrLogId, remove: UpdateOrLogId, parent: NodeId, index: usize, child: NodeId)
    requires
        adds_child(add, parent, index, child),
        removes_child(remove, parent, child),
        d.nodes.contains_key(parent),
        d.nodes.contains_key(child),
        index <= d.nodes[parent].children.len(),
        forall|k: int| 0 <= k < index ==> d.nodes[parent].children[k] != child,
    ensures
        run(d, e, seq![add, remove]) matches Ok((d2, e2)) && d2 == d
            && d2.nodes[parent].children == d.nodes[parent].children,
{
    let s = d.nodes[parent].children;
    let (d1, e1) = step(d, e, add)->Ok_0;
    assert(d1.nodes[parent].children == s.insert(index as int, child));
    lemma_first_index_inserted(s, index as int, child);
    assert(s.insert(index as int, child).remove(index as int) =~= s);
    let (d2, e2) = step(d1, e1, remove)->Ok_0;
    assert(d2.nodes =~= d.nodes);
    let both = seq![add, remove];
    assert(both[0] == add);
    assert(both.drop_first() =~= seq![remove]);
    assert(seq![remove][0] == remove);
    assert(seq![remove].drop_first() =~= Seq::<UpdateOrLogId>::empty());
    assert(run(d2, e2, Seq::<UpdateOrLogId>::empty()) == Ok::<(DocModel, Effects), (ApplyError, DocModel)>((d2, e2)));
    assert(run(d1, e1, seq![remove]) == Ok::<(DocModel, Effects), (ApplyError, DocModel)>((d2, e2)));
    assert(run(d, e, both) == Ok::<(DocModel, Effects), (ApplyError, DocModel)>((d2, e2)));
}

/// The entry that sets attribute `attr` of node `id`.
pub open spec fn sets_attr(u: UpdateOrLogId, id: NodeId, attr: Seq<char>) -> bool {
    match u {
        UpdateOrLogId::Update(Update::SetAttr(s)) => s.node_id == id && s.attribute@ == attr,
        _ => false,
    }
}

/// The value that a `set-attr` entry carries.
pub open spec fn set_value(u: UpdateOrLogId) -> crate::json::Json {
    match u {
        UpdateOrLogId::Update(Update::SetAttr(s)) => s.value,
        _ => crate::json::Json::Null,
    }
}

proof fn lemma_scroll_words_distinct()
    ensures
        "scroll-position"@ != "position"@,
        "scroll-position"@ != "content"@,
        "content"@ != "position"@,
{
    reveal_strlit("scroll-position");
    reveal_strlit("position");
    reveal_strlit("content");
    assert("scroll-position"@.len() == 15);
    assert("position"@.len() == 8);
    assert("content"@.len() == 7);
}

/// On a `Scroll` node, setting the scroll position moves its frame without
/// asking for a rebuild, while setting its `position` or `content`
/// rectangle asks for one.
pub proof fn lemma_scroll_rebuild(d: DocModel, id: NodeId, scroll: UpdateOrLogId, rect: UpdateOrLogId, rect_attr: Seq<char>)
    requires
        d.nodes.contains_key(id),
        d.nodes[id].kind is Scroll,
        sets_attr(scroll, id, "scroll-position"@),
        point_of(set_value(scroll)) is Some,
        rect_attr == "position"@ || rect_attr == "content"@,
        sets_attr(rect, id, rect_attr),
        rect_of(set_value(rect)) is Some,
    ensures
        run(d, no_effects(), seq![scroll]) matches Ok((d1, e1)) && !e1.needs_rebuild && d1 == d,
        run(d, no_effects(), seq![rect]) matches Ok((d2, e2)) && e2.needs_rebuild,
{
    lemma_scroll_words_distinct();
    assert(seq![scroll].drop_first() =~= Seq::<UpdateOrLogId>::empty());
    assert(seq![rect].drop_first() =~= Seq::<UpdateOrLogId>::empty());
    assert(seq![scroll][0] == scroll);
    assert(seq![rect][0] == rect);
    let (d1, e1) = step(d, no_effects(), scroll)->Ok_0;
    assert(d1.nodes =~= d.nodes);
    assert(run(d1, e1, Seq::<UpdateOrLogId>::empty()) == Ok::<(DocModel, Effects), (ApplyError, DocModel)>((d1, e1)));
    let (d2, e2) = step(d, no_effects(), rect)->Ok_0;
    assert(e2.needs_rebuild);
    assert(run(d2, e2, Seq::<UpdateOrLogId>::empty()) == Ok::<(DocModel, Effects), (ApplyError, DocModel)>((d2, e2)));
}

/// Destroying a node that the document does not hold fails with an error
/// naming it, and changes nothing.
pub proof fn lemma_destroy_unknown(d: DocModel, e: Effects, u: UpdateOrLogId, id: NodeId)
    requires
        destroyed(u) == Some(id),
        !d.nodes.contains_key(id),
    ensures
        run(d, e, seq![u]) == Err::<(DocModel, Effects), (ApplyError, DocModel)>((ApplyError::UnknownNode(id), d)),
{
}


/// The node that `u` creates, with its type name.
pub open spec fn made(u: UpdateOrLogId) -> Option<(NodeId, Seq<char>)> {
    match u {
        UpdateOrLogId::Update(Update::MakeNode(m)) => Some((m.node_id, m.node_type@)),
        _ => None,
    }
}

/// The node that `u` destroys.
pub open spec fn destroyed(u: UpdateOrLogId) -> Option<NodeId> {
    match u {
        UpdateOrLogId::Update(Update::Destroy(x)) => Some(x.node_id),
        _ => None,
    }
}

/// The node that `u` creates, where its type exists.
pub open spec fn make_id(u: UpdateOrLogId) -> Option<NodeId> {
    match made(u) {
        Some((k, t)) => if kind_of_type(t) is Some { Some(k) } else { None },
        None => None,
    }
}

/// The entries `us` only create nodes of known types and destroy nodes; no
/// node is created twice or destroyed twice.
pub open spec fn makes_and_destroys(us: Seq<UpdateOrLogId>) -> bool {
    &&& forall|i: int| 0 <= i < us.len() ==> #[trigger] make_id(us[i]) is Some || destroyed(us[i]) is Some
    &&& forall|i: int, j: int| 0 <= i < us.len() && 0 <= j < us.len() && i != j && make_id(us[i]) is Some
        ==> #[trigger] make_id(us[j]) != #[trigger] make_id(us[i])
    &&& forall|i: int, j: int| 0 <= i < us.len() && 0 <= j < us.len() && i != j && destroyed(us[i]) is Some
        ==> #[trigger] destroyed(us[j]) != #[trigger] destroyed(us[i])
}

/// Each node that `us` creates is fresh in `d` and destroyed later in `us`,
/// and each node that `us` destroys was created earlier in `us`.
pub open spec fn pairs_up(d: DocModel, us: Seq<UpdateOrLogId>) -> bool {
    &&& makes_and_destroys(us)
    &&& forall|i: int| 0 <= i < us.len() && #[trigger] make_id(us[i]) is Some ==> !d.nodes.contains_key(make_id(us[i])->0)
        && exists|j: int| i < j < us.len() && #[trigger] destroyed(us[j]) == make_id(us[i])
    &&& forall|i: int| 0 <= i < us.len() && #[trigger] destroyed(us[i]) is Some ==>
        exists|j: int| 0 <= j < i && #[trigger] make_id(us[j]) == destroyed(us[i])
}

/// `d` is `d0` with the nodes `live` added.
pub open spec fn extends_by(d0: DocModel, d: DocModel, live: Set<NodeId>) -> bool {
    &&& forall|k: NodeId| #[trigger] d.nodes.contains_key(k) <==> d0.nodes.contains_key(k) || live.contains(k)
    &&& forall|k: NodeId| d0.nodes.contains_key(k) ==> #[trigger] d.nodes[k] == d0.nodes[k]
    &&& forall|k: NodeId| #[trigger] live.contains(k) ==> !d0.nodes.contains_key(k)
}

/// What is left of a paired sequence once the nodes `live` were created and
/// not yet destroyed.
pub open spec fn pairs_up_from(d0: DocModel, live: Set<NodeId>, us: Seq<UpdateOrLogId>) -> bool {
    &&& makes_and_destroys(us)
    &&& forall|i: int| 0 <= i < us.len() && #[trigger] make_id(us[i]) is Some ==> !d0.nodes.contains_key(make_id(us[i])->0)
        && !live.contains(make_id(us[i])->0)
        && exists|j: int| i < j < us.len() && #[trigger] destroyed(us[j]) == make_id(us[i])
    &&& forall|i: int| 0 <= i < us.len() && #[trigger] destroyed(us[i]) is Some ==>
        live.contains(destroyed(us[i])->0) || exists|j: int| 0 <= j < i && #[trigger] make_id(us[j]) == destroyed(us[i])
    &&& forall|k: NodeId| #[trigger] live.contains(k) ==> exists|i: int| 0 <= i < us.len() && #[trigger] destroyed(us[i]) == Some(k)
}

proof fn lemma_pairs_from(d0: DocModel, d: DocModel, e: Effects, live: Set<NodeId>, us: Seq<UpdateOrLogId>)
    requires
        extends_by(d0, d, live),
        pairs_up_from(d0, live, us),
    ensures
        run(d, e, us) matches Ok((d2, e2)) && d2.nodes == d0.nodes
            && e2.needs_rebuild == (e.needs_rebuild || us.len() > 0),
    decreases us.len(),
{
    if us.len() == 0 {
        assert forall|k: NodeId| !live.contains(k) by {
            if live.contains(k) {
                let i = choose|i: int| 0 <= i < us.len() && #[trigger] destroyed(us[i]) == Some(k);
            }
        }
        assert(d.nodes =~= d0.nodes);
    } else {
        let u = us[0];
        let rest = us.drop_first();
        assert(make_id(u) is Some || destroyed(u) is Some);
        assert forall|i: int| 0 <= i < rest.len() implies rest[i] == us[i + 1] by {}
        if make_id(u) is Some {
            let k = make_id(u)->0;
            let (d1, e1) = step(d, e, u)->Ok_0;
            let live1 = live.insert(k);
            assert(extends_by(d0, d1, live1));
            assert forall|i: int| 0 <= i < rest.len() && #[trigger] make_id(rest[i]) is Some implies
                !d0.nodes.contains_key(make_id(rest[i])->0) && !live1.contains(make_id(rest[i])->0)
                && exists|j: int| i < j < rest.len() && #[trigger] destroyed(rest[j]) == make_id(rest[i]) by {
                assert(make_id(us[i + 1]) is Some);
                assert(make_id(us[i + 1]) != make_id(us[0]));
                let j = choose|j: int| i + 1 < j < us.len() && #[trigger] destroyed(us[j]) == make_id(us[i + 1]);
                assert(destroyed(rest[j - 1]) == make_id(rest[i]));
            }
            assert forall|i: int| 0 <= i < rest.len() && #[trigger] destroyed(rest[i]) is Some implies
                live1.contains(destroyed(rest[i])->0) || exists|j: int| 0 <= j < i && #[trigger] make_id(rest[j]) == destroyed(rest[i]) by {
                assert(destroyed(us[i + 1]) is Some);
                if !live.contains(destroyed(us[i + 1])->0) {
                    let j = choose|j: int| 0 <= j < i + 1 && #[trigger] make_id(us[j]) == destroyed(us[i + 1]);
                    if j > 0 {
                        assert(make_id(rest[j - 1]) == destroyed(rest[i]));
                    }
                }
            }
            assert forall|k2: NodeId| #[trigger] live1.contains(k2) implies exists|i: int| 0 <= i < rest.len() && #[trigger] destroyed(rest[i]) == Some(k2) by {
                if k2 == k {
                    let j = choose|j: int| 0 < j < us.len() && #[trigger] destroyed(us[j]) == make_id(us[0]);
                    assert(destroyed(rest[j - 1]) == Some(k2));
                } else {
                    let i = choose|i: int| 0 <= i < us.len() && #[trigger] destroyed(us[i]) == Some(k2);
                    assert(i != 0);
                    assert(destroyed(rest[i - 1]) == Some(k2));
                }
            }
            assert forall|i: int, j: int| 0 <= i < rest.len() && 0 <= j < rest.len() && i != j && make_id(rest[i]) is Some
                implies #[trigger] make_id(rest[j]) != #[trigger] make_id(rest[i]) by {
                assert(make_id(us[i + 1]) != make_id(us[j + 1]));
            }
            assert forall|i: int, j: int| 0 <= i < rest.len() && 0 <= j < rest.len() && i != j && destroyed(rest[i]) is Some
                implies #[trigger] destroyed(rest[j]) != #[trigger] destroyed(rest[i]) by {
                assert(destroyed(us[i + 1]) != destroyed(us[j + 1]));
            }
            assert forall|i: int| 0 <= i < rest.len() implies #[trigger] make_id(rest[i]) is Some || destroyed(rest[i]) is Some by {
                assert(make_id(us[i + 1]) is Some || destroyed(us[i + 1]) is Some);
            }
            lemma_pairs_from(d0, d1, e1, live1, rest);
        } else {
            let k = destroyed(u)->0;
            assert(live.contains(k)) by {
                if !live.contains(k) {
                    let j = choose|j: int| 0 <= j < 0 && #[trigger] make_id(us[j]) == destroyed(us[0]);
                }
            }
            let (d1, e1) = step(d, e, u)->Ok_0;
            let live1 = live.remove(k);
            assert(extends_by(d0, d1, live1));
            assert forall|i: int| 0 <= i < rest.len() && #[trigger] make_id(rest[i]) is Some implies
                !d0.nodes.contains_key(make_id(rest[i])->0) && !live1.contains(make_id(rest[i])->0)
                && exists|j: int| i < j < rest.len() && #[trigger] destroyed(rest[j]) == make_id(rest[i]) by {
                assert(make_id(us[i + 1]) is Some);
                let j = choose|j: int| i + 1 < j < us.len() && #[trigger] destroyed(us[j]) == make_id(us[i + 1]);
                assert(destroyed(rest[j - 1]) == make_id(rest[i]));
            }
            assert forall|i: int| 0 <= i < rest.len() && #[trigger] destroyed(rest[i]) is Some implies
                live1.contains(destroyed(rest[i])->0) || exists|j: int| 0 <= j < i && #[trigger] make_id(rest[j]) == destroyed(rest[i]) by {
                assert(destroyed(us[i + 1]) is Some);
                assert(destroyed(us[i + 1]) != destroyed(us[0]));
                if !live.contains(destroyed(us[i + 1])->0) {
                    let j = choose|j: int| 0 <= j < i + 1 && #[trigger] make_id(us[j]) == destroyed(us[i + 1]);
                    assert(j > 0);
                    assert(make_id(rest[j - 1]) == destroyed(rest[i]));
                }
            }
            assert forall|k2: NodeId| #[trigger] live1.contains(k2) implies exists|i: int| 0 <= i < rest.len() && #[trigger] destroyed(rest[i]) == Some(k2) by {
                let i = choose|i: int| 0 <= i < us.len() && #[trigger] destroyed(us[i]) == Some(k2);
                assert(i != 0);
                assert(destroyed(rest[i - 1]) == Some(k2));
            }
            assert forall|i: int, j: int| 0 <= i < rest.len() && 0 <= j < rest.len() && i != j && make_id(rest[i]) is Some
                implies #[trigger] make_id(rest[j]) != #[trigger] make_id(rest[i]) by {
                assert(make_id(us[i + 1]) != make_id(us[j + 1]));
            }
            assert forall|i: int, j: int| 0 <= i < rest.len() && 0 <= j < rest.len() && i != j && destroyed(rest[i]) is Some
                implies #[trigger] destroyed(rest[j]) != #[trigger] destroyed(rest[i]) by {
                assert(destroyed(us[i + 1]) != destroyed(us[j + 1]));
            }
            assert forall|i: int| 0 <= i < rest.len() implies #[trigger] make_id(rest[i]) is Some || destroyed(rest[i]) is Some by {
                assert(make_id(us[i + 1]) is Some || destroyed(us[i + 1]) is Some);
            }
            lemma_pairs_from(d0, d1, e1, live1, rest);
        }
    }
}

/// Any sequence of node creations and destructions in which each created
/// node is fresh and destroyed later, and each destroyed node was created
/// earlier, in any interleaving, asks for a rebuild (when not empty) and
/// leaves the document's nodes exactly as they were: as many, with the same
/// children.
pub proof fn lemma_paired_make_destroy(d: DocModel, e: Effects, us: Seq<UpdateOrLogId>)
    requires
        pairs_up(d, us),
    ensures
        run(d, e, us) matches Ok((d2, e2)) && d2.nodes == d.nodes && d2.nodes.len() == d.nodes.len()
            && e2.needs_rebuild == (e.needs_rebuild || us.len() > 0),
{
    assert(extends_by(d, d, Set::empty()));
    assert(pairs_up_from(d, Set::empty(), us));
    lemma_pairs_from(d, d, e, Set::empty(), us);
}


/// Every child named in `d` is a node of `d`.
pub open spec fn closed(d: DocModel) -> bool {
    forall|k: NodeId, i: int| #[trigger] d.nodes.contains_key(k) && 0 <= i < d.nodes[k].children.len()
        ==> d.nodes.contains_key(#[trigger] d.nodes[k].children[i])
}

/// Some node of `d` names `id` as a child.
pub open spec fn referenced(d: DocModel, id: NodeId) -> bool {
    exists|k: NodeId, i: int| #[trigger] d.nodes.contains_key(k) && 0 <= i < d.nodes[k].children.len()
        && #[trigger] d.nodes[k].children[i] == id
}

/// In the run of `us` from `d`, each node is destroyed only once no node
/// names it as a child any more.
pub open spec fn destroys_unreferenced(d: DocModel, e: Effects, us: Seq<UpdateOrLogId>) -> bool
    decreases us.len(),
{
    if us.len() == 0 {
        true
    } else {
        match step(d, e, us[0]) {
            Ok((d1, e1)) => (match destroyed(us[0]) {
                Some(k) => !referenced(d, k),
                None => true,
            }) && destroys_unreferenced(d1, e1, us.drop_first()),
            Err(_) => true,
        }
    }
}

/// The number of `make-node` entries in `us`.
pub open spec fn count_made(us: Seq<UpdateOrLogId>) -> int
    decreases us.len(),
{
    if us.len() == 0 {
        0
    } else {
        (if made(us[0]) is Some { 1int } else { 0int }) + count_made(us.drop_first())
    }
}

/// The number of `destroy` entries in `us`.
pub open spec fn count_destroyed(us: Seq<UpdateOrLogId>) -> int
    decreases us.len(),
{
    if us.len() == 0 {
        0
    } else {
        (if destroyed(us[0]) is Some { 1int } else { 0int }) + count_destroyed(us.drop_first())
    }
}

proof fn lemma_step_closed(d: DocModel, e: Effects, u: UpdateOrLogId)
    requires
        closed(d),
        d.nodes.dom().finite(),
        match destroyed(u) {
            Some(k) => !referenced(d, k),
            None => true,
        },
    ensures
        step(d, e, u) matches Ok((d1, e1)) ==> closed(d1) && d1.nodes.dom().finite()
            && d1.nodes.len() == d.nodes.len() + (if made(u) is Some { 1int } else { 0int })
                - (if destroyed(u) is Some { 1int } else { 0int }),
{
    if let Ok((d1, e1)) = step(d, e, u) {
        match u {
            UpdateOrLogId::Update(Update::MakeNode(m)) => {
                assert forall|k: NodeId, i: int| #[trigger] d1.nodes.contains_key(k) && 0 <= i < d1.nodes[k].children.len()
                    implies d1.nodes.contains_key(#[trigger] d1.nodes[k].children[i]) by {
                    assert(k != m.node_id);
                    assert(d.nodes.contains_key(d.nodes[k].children[i]));
                }
            },
            UpdateOrLogId::Update(Update::Destroy(x)) => {
                assert forall|k: NodeId, i: int| #[trigger] d1.nodes.contains_key(k) && 0 <= i < d1.nodes[k].children.len()
                    implies d1.nodes.contains_key(#[trigger] d1.nodes[k].children[i]) by {
                    assert(d.nodes.contains_key(d.nodes[k].children[i]));
                    if d.nodes[k].children[i] == x.node_id {
                        assert(referenced(d, x.node_id));
                    }
                }
            },
            UpdateOrLogId::Update(Update::Add(a)) => {
                if a.attribute@ == "children"@ {
                    let child = as_u64(a.value)->0;
                    let s = d.nodes[a.node_id].children;
                    assert forall|k: NodeId, i: int| #[trigger] d1.nodes.contains_key(k) && 0 <= i < d1.nodes[k].children.len()
                        implies d1.nodes.contains_key(#[trigger] d1.nodes[k].children[i]) by {
                        if k == a.node_id {
                            let t = s.insert(a.index as int, child);
                            if i < a.index {
                                assert(t[i] == s[i]);
                                assert(d.nodes.contains_key(d.nodes[k].children[i]));
                            } else if i > a.index {
                                assert(t[i] == s[i - 1]);
                                assert(d.nodes.contains_key(d.nodes[k].children[i - 1]));
                            }
                        } else {
                            assert(d.nodes.contains_key(d.nodes[k].children[i]));
                        }
                    }
                    assert(d1.nodes.dom() =~= d.nodes.dom());
                }
            },
            UpdateOrLogId::Update(Update::Remove(r)) => {
                if r.attribute@ == "children"@ {
                    let child = as_u64(r.value)->0;
                    let s = d.nodes[r.node_id].children;
                    assert forall|k: NodeId, i: int| #[trigger] d1.nodes.contains_key(k) && 0 <= i < d1.nodes[k].children.len()
                        implies d1.nodes.contains_key(#[trigger] d1.nodes[k].children[i]) by {
                        if k == r.node_id {
                            match first_index(s, child) {
                                Some(j) => {
                                    lemma_first_index_bound(s, child);
                                    if i < j {
                                        assert(d.nodes.contains_key(d.nodes[k].children[i]));
                                    } else {
                                        assert(s.remove(j)[i] == s[i + 1]);
                                        assert(d.nodes.contains_key(d.nodes[k].children[i + 1]));
                                    }
                                },
                                None => {
                                    assert(d.nodes.contains_key(d.nodes[k].children[i]));
                                },
                            }
                        } else {
                            assert(d.nodes.contains_key(d.nodes[k].children[i]));
                        }
                    }
                    assert(d1.nodes.dom() =~= d.nodes.dom());
                }
            },
            UpdateOrLogId::Update(Update::SetAttr(sa)) => {
                assert forall|k: NodeId, i: int| #[trigger] d1.nodes.contains_key(k) && 0 <= i < d1.nodes[k].children.len()
                    implies d1.nodes.contains_key(#[trigger] d1.nodes[k].children[i]) by {
                    assert(d.nodes.contains_key(d.nodes[k].children[i]));
                }
                assert(d1.nodes.dom() =~= d.nodes.dom());
            },
            UpdateOrLogId::LogIds(_) => {},
        }
    }
}

proof fn lemma_first_index_bound(s: Seq<NodeId>, v: NodeId)
    ensures
        first_index(s, v) matches Some(i) ==> 0 <= i < s.len(),
    decreases s.len(),
{
    if s.len() > 0 && s[0] != v {
        lemma_first_index_bound(s.drop_first(), v);
    }
}

/// A batch that succeeds keeps every child named in the document a node of
/// the document, as long as each node is destroyed only once no node names
/// it as a child; the node count grows by one for each creation and shrinks
/// by one for each destruction.
pub proof fn lemma_no_dangling_children(d: DocModel, e: Effects, us: Seq<UpdateOrLogId>)
    requires
        closed(d),
        d.nodes.dom().finite(),
        destroys_unreferenced(d, e, us),
    ensures
        run(d, e, us) matches Ok((d2, e2)) ==> closed(d2)
            && d2.nodes.len() == d.nodes.len() + count_made(us) - count_destroyed(us),
    decreases us.len(),
{
    if us.len() > 0 {
        lemma_step_closed(d, e, us[0]);
        if let Ok((d1, e1)) = step(d, e, us[0]) {
            lemma_no_dangling_children(d1, e1, us.drop_first());
        }
    }
}

} // verus!
