//! The work done for one inbound message once decoded: apply its entries in
//! order, and build the scene again when they ask for it.

use vstd::prelude::*;
use crate::document::{Document, ApplyOutcome, run, no_effects};
use crate::dom::{ApplyError, Rect};
use crate::scene::{Scene, SceneError, build_scene, scene_of, prims};
use crate::transport::UpdateOrLogId;

verus! {

/// Why a message ends the session.
#[derive(Clone, Copy, Debug, PartialEq, Eq, Structural)]
pub enum SessionError {
    /// An entry could not be applied: the peer is out of step.
    Apply(ApplyError),
    /// The document after the message has no scene.
    Scene(SceneError),
}

/// What one message produced.
#[derive(Debug)]
pub struct MessageOutcome {
    /// What applying the entries asks of the client.
    pub applied: ApplyOutcome,
    /// The new scene, where the entries asked for a rebuild.
    pub scene: Option<Scene>,
}

/// Applies the entries of one message in order, then builds the scene for
/// `viewport` if they asked for a rebuild.
pub fn apply_message(doc: &mut Document, entries: &Vec<UpdateOrLogId>, viewport: Rect) -> (r: Result<MessageOutcome, SessionError>)
    ensures
        match run(old(doc)@, no_effects(), entries@) {
            Err((err, d)) => final(doc)@ == d && (r matches Err(x) && x == SessionError::Apply(err)),
            Ok((d, e)) => final(doc)@ == d && (if !e.needs_rebuild {
                r matches Ok(o) && o.applied@ == e && o.scene is None
            } else {
                match scene_of(d, viewport) {
                    Ok(items) => r matches Ok(o) && o.applied@ == e
                        && (o.scene matches Some(s) && prims(s.items@) == items),
                    Err(se) => r matches Err(x) && x == SessionError::Scene(se),
                }
            }),
        },
{
    let applied = match doc.apply_updates(entries) {
        Ok(o) => o,
        Err(e) => return Err(SessionError::Apply(e)),
    };
    if !applied.needs_rebuild {
        return Ok(MessageOutcome { applied, scene: None });
    }
    match build_scene(doc, viewport) {
        Ok(scene) => Ok(MessageOutcome { applied, scene: Some(scene) }),
        Err(e) => Err(SessionError::Scene(e)),
    }
}

} // verus!
