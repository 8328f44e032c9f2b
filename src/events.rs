//! Dispatch of input hits: each tagged node under the pointer whose policy
//! for the event is present gets one outbound message, in hit order.

use vstd::prelude::*;
use crate::dom::{NodeId, NodeType, Kind, Point};
use crate::document::{Document, DocModel};
use crate::scene::HitItem;

verus! {

/// The event that a message reports.
#[derive(Clone, Copy, Debug, PartialEq, Eq, Structural)]
pub enum EventKey {
    OnClick,
    OnWheel,
}

impl EventKey {
    /// The event's name on the wire.
    pub fn name(&self) -> (r: &'static str)
        ensures
            r@ == (match *self {
                EventKey::OnClick => "on-click"@,
                EventKey::OnWheel => "on-wheel"@,
            }),
    {
        match self {
            EventKey::OnClick => "on-click",
            EventKey::OnWheel => "on-wheel",
        }
    }
}

/// A pair of numbers carried by an event, in app units.
#[derive(Clone, Copy, Debug, PartialEq, Eq, Structural)]
pub struct Vector {
    pub x: i64,
    pub y: i64,
}

/// An outbound event message. `arguments` are the point relative to the hit
/// primitive for a click, the scroll delta for a wheel, in app units.
#[derive(Clone, Copy, Debug, PartialEq, Eq, Structural)]
pub struct CallbackMessage {
    pub log_id: u64,
    pub ts: u64,
    pub node: NodeId,
    pub key: EventKey,
    pub arguments: Vector,
}

/// Why hits could not be dispatched.
#[derive(Clone, Copy, Debug, PartialEq, Eq, Structural)]
pub enum DispatchError {
    /// A hit names a node that the document does not hold.
    UnknownNode(NodeId),
}

/// A wheel movement: in lines, or in app units, in fixed point with 60 steps
/// to the unit.
#[derive(Clone, Copy, Debug, PartialEq, Eq, Structural)]
pub enum WheelDelta {
    Lines { dx: i32, dy: i32 },
    Pixels { dx: i32, dy: i32 },
}

/// The height of a line of wheel movement, in pixels.
pub const LINE_HEIGHT: i64 = 38;

/// The scroll vector of a wheel movement, in app units: opposite to the
/// movement, a vertical line counting as `LINE_HEIGHT` pixels.
pub open spec fn delta_of(d: WheelDelta) -> Vector {
    match d {
        WheelDelta::Lines { dx, dy } => Vector { x: (-dx) as i64, y: (-dy * LINE_HEIGHT) as i64 },
        WheelDelta::Pixels { dx, dy } => Vector { x: (-dx) as i64, y: (-dy) as i64 },
    }
}

/// The scroll vector of a wheel movement.
pub fn delta_vector(d: WheelDelta) -> (r: Vector)
    ensures
        r == delta_of(d),
{
    match d {
        WheelDelta::Lines { dx, dy } => Vector { x: -(dx as i64), y: -(dy as i64) * LINE_HEIGHT },
        WheelDelta::Pixels { dx, dy } => Vector { x: -(dx as i64), y: -(dy as i64) },
    }
}

/// The message that a click on node `node` of kind `k` sends, if any: only a
/// `Div` with a click callback takes clicks.
pub open spec fn click_of(k: Kind, log_id: u64, ts: u64, node: NodeId, p: Point) -> Option<CallbackMessage> {
    match k {
        Kind::Div { on_click, .. } => if !(on_click is Absent) {
            Some(CallbackMessage { log_id, ts, node, key: EventKey::OnClick, arguments: Vector { x: p.x as i64, y: p.y as i64 } })
        } else {
            None
        },
        _ => None,
    }
}

/// The message that a wheel movement over node `node` of kind `k` sends, if
/// any: a `Div` or a `Scroll` with a wheel callback takes it.
pub open spec fn wheel_of(k: Kind, log_id: u64, ts: u64, node: NodeId, delta: Vector) -> Option<CallbackMessage> {
    let msg = CallbackMessage { log_id, ts, node, key: EventKey::OnWheel, arguments: delta };
    match k {
        Kind::Div { on_wheel, .. } => if !(on_wheel is Absent) { Some(msg) } else { None },
        Kind::Scroll { on_wheel, .. } => if !(on_wheel is Absent) { Some(msg) } else { None },
        _ => None,
    }
}

/// `o` as a sequence of at most one element.
pub open spec fn opt_seq(o: Option<CallbackMessage>) -> Seq<CallbackMessage> {
    match o {
        Some(m) => seq![m],
        None => Seq::empty(),
    }
}

/// The messages for hits `hits[k..]` in order; for a click when `click`,
/// else for a wheel movement by `delta`.
pub open spec fn messages_from(d: DocModel, hits: Seq<HitItem>, k: int, click: bool, log_id: u64, ts: u64, delta: Vector) -> Result<Seq<CallbackMessage>, DispatchError>
    decreases hits.len() - k,
{
    if k < 0 || k >= hits.len() {
        Ok(Seq::empty())
    } else if !d.nodes.contains_key(hits[k].node) {
        Err(DispatchError::UnknownNode(hits[k].node))
    } else {
        let kind = d.nodes[hits[k].node].kind;
        let m = if click {
            click_of(kind, log_id, ts, hits[k].node, hits[k].point)
        } else {
            wheel_of(kind, log_id, ts, hits[k].node, delta)
        };
        match messages_from(d, hits, k + 1, click, log_id, ts, delta) {
            Ok(rest) => Ok(opt_seq(m) + rest),
            Err(e) => Err(e),
        }
    }
}

impl NodeType {
    /// The message that a click on this node sends, if any.
    pub fn on_click(&self, log_id: u64, ts: u64, node_id: NodeId, point: Point) -> (r: Option<CallbackMessage>)
        ensures
            r == click_of(self@, log_id, ts, node_id, point),
    {
        match self {
            NodeType::Div { on_click, .. } => if on_click.is_some() {
                Some(CallbackMessage {
                    log_id,
                    ts,
                    node: node_id,
                    key: EventKey::OnClick,
                    arguments: Vector { x: point.x as i64, y: point.y as i64 },
                })
            } else {
                None
            },
            _ => None,
        }
    }

    /// The message that a wheel movement over this node sends, if any.
    pub fn on_wheel(&self, log_id: u64, ts: u64, node_id: NodeId, delta: Vector) -> (r: Option<CallbackMessage>)
        ensures
            r == wheel_of(self@, log_id, ts, node_id, delta),
    {
        let msg = CallbackMessage { log_id, ts, node: node_id, key: EventKey::OnWheel, arguments: delta };
        match self {
            NodeType::Div { on_wheel, .. } => if on_wheel.is_some() { Some(msg) } else { None },
            NodeType::Scroll { on_wheel, .. } => if on_wheel.is_some() { Some(msg) } else { None },
            _ => None,
        }
    }
}

/// The messages for a list of hits, in hit order.
fn dispatch(doc: &Document, hits: &Vec<HitItem>, click: bool, log_id: u64, ts: u64, delta: Vector) -> (r: Result<Vec<CallbackMessage>, DispatchError>)
    ensures
        match messages_from(doc@, hits@, 0, click, log_id, ts, delta) {
            Ok(ms) => r matches Ok(v) && v@ == ms,
            Err(e) => r matches Err(x) && x == e,
        },
{
    let mut out: Vec<CallbackMessage> = Vec::new();
    let mut i: usize = 0;
    while i < hits.len()
        invariant
            i <= hits@.len(),
            messages_from(doc@, hits@, 0, click, log_id, ts, delta) == match messages_from(doc@, hits@, i as int, click, log_id, ts, delta) {
                Ok(rest) => Ok(out@ + rest),
                Err(e) => Err(e),
            },
        decreases hits@.len() - i,
    {
        let h = hits[i];
        let node = match doc.get(h.node) {
            Some(n) => n,
            None => return Err(DispatchError::UnknownNode(h.node)),
        };
        let m = if click {
            node.node_type.on_click(log_id, ts, h.node, h.point)
        } else {
            node.node_type.on_wheel(log_id, ts, h.node, delta)
        };
        let ghost before = out@;
        match m {
            Some(msg) => out.push(msg),
            None => {},
        }
        proof {
            assert(out@ =~= before + opt_seq(m));
            let tail = messages_from(doc@, hits@, i as int + 1, click, log_id, ts, delta);
            if let Ok(rest) = tail {
                assert(before + (opt_seq(m) + rest) =~= out@ + rest);
            }
        }
        i = i + 1;
    }
    proof {
        assert(out@ + Seq::<CallbackMessage>::empty() =~= out@);
    }
    Ok(out)
}

/// The messages that a click sends: one for each hit, in hit order, on a
/// `Div` with a click callback.
pub fn click_messages(doc: &Document, hits: &Vec<HitItem>, log_id: u64, ts: u64) -> (r: Result<Vec<CallbackMessage>, DispatchError>)
    ensures
        match messages_from(doc@, hits@, 0, true, log_id, ts, Vector { x: 0, y: 0 }) {
            Ok(ms) => r matches Ok(v) && v@ == ms,
            Err(e) => r matches Err(x) && x == e,
        },
{
    dispatch(doc, hits, true, log_id, ts, Vector { x: 0, y: 0 })
}

/// The messages that a wheel movement sends: one for each hit, in hit
/// order, on a `Div` or `Scroll` with a wheel callback, carrying the scroll
/// vector of the movement.
pub fn wheel_messages(doc: &Document, hits: &Vec<HitItem>, log_id: u64, ts: u64, delta: WheelDelta) -> (r: Result<Vec<CallbackMessage>, DispatchError>)
    ensures
        match messages_from(doc@, hits@, 0, false, log_id, ts, delta_of(delta)) {
            Ok(ms) => r matches Ok(v) && v@ == ms,
            Err(e) => r matches Err(x) && x == e,
        },
{
    let v = delta_vector(delta);
    dispatch(doc, hits, false, log_id, ts, v)
}

} // verus!
