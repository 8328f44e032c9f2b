//! The inbound protocol: a message is a JSON array whose entries are either a
//! batch of correlation ids (a flat array of unsigned integers) or a mutation
//! object tagged by its `update-type` member.

use vstd::prelude::*;
use crate::json::{Json, field, field_of, as_u64, as_str, find_field};

verus! {

/// Creates a node of the given type.
#[derive(Debug)]
pub struct MakeNode {
    pub node_id: u64,
    pub node_type: String,
}

/// Removes a node from the document.
#[derive(Debug)]
pub struct Destroy {
    pub node_id: u64,
}

/// Inserts `value` into the list attribute `attribute` of a node at `index`.
#[derive(Debug)]
pub struct Add {
    pub node_id: u64,
    pub attribute: String,
    pub index: usize,
    pub value: Json,
}

/// Removes the first occurrence of `value` from the list attribute
/// `attribute` of a node.
#[derive(Debug)]
pub struct Remove {
    pub node_id: u64,
    pub attribute: String,
    pub value: Json,
}

/// Sets the attribute `attribute` of a node.
#[derive(Debug)]
pub struct SetAttr {
    pub node_id: u64,
    pub attribute: String,
    pub value: Json,
}

/// One mutation of the document.
#[derive(Debug)]
pub enum Update {
    MakeNode(MakeNode),
    Destroy(Destroy),
    Add(Add),
    Remove(Remove),
    SetAttr(SetAttr),
}

/// One entry of a message.
#[derive(Debug)]
pub enum UpdateOrLogId {
    Update(Update),
    LogIds(Vec<u64>),
}

/// Why a message could not be decoded.
#[derive(Clone, Copy, Debug, PartialEq, Eq, Structural)]
pub enum DecodeError {
    /// The message is not a JSON array.
    NotAList,
    /// The entry at this index is neither a batch of ids nor a mutation.
    BadEntry(usize),
}

/// The unsigned integer member `key` of `j`.
pub open spec fn u64_field(j: Json, key: Seq<char>) -> Option<u64> {
    match field(j, key) {
        Some(v) => as_u64(v),
        None => None,
    }
}

/// The string member `key` of `j`.
pub open spec fn str_field(j: Json, key: Seq<char>) -> Option<Seq<char>> {
    match field(j, key) {
        Some(v) => as_str(v),
        None => None,
    }
}

/// `j` is an array of unsigned integers.
pub open spec fn is_id_batch(j: Json) -> bool {
    match j {
        Json::Array(items) => forall|i: int| 0 <= i < items@.len() ==> (#[trigger] as_u64(items@[i])) is Some,
        _ => false,
    }
}

/// `j` is a well-formed mutation object.
pub open spec fn is_update(j: Json) -> bool {
    let t = str_field(j, "update-type"@);
    &&& j is Object
    &&& u64_field(j, "node"@) is Some
    &&& {
        ||| t == Some("make-node"@) && str_field(j, "type"@) is Some
        ||| t == Some("destroy"@)
        ||| t == Some("add"@) && str_field(j, "attr"@) is Some && u64_field(j, "index"@) is Some
            && u64_field(j, "index"@)->0 <= usize::MAX && field(j, "value"@) is Some
        ||| (t == Some("remove"@) || t == Some("set-attr"@)) && str_field(j, "attr"@) is Some
            && field(j, "value"@) is Some
    }
}

/// `j` can be decoded as an entry.
pub open spec fn decodable(j: Json) -> bool {
    is_id_batch(j) || is_update(j)
}

/// `e` is what `j` decodes to.
pub open spec fn decodes(j: Json, e: UpdateOrLogId) -> bool {
    match e {
        UpdateOrLogId::LogIds(ids) => match j {
            Json::Array(items) => items@.len() == ids@.len() && forall|i: int|
                0 <= i < ids@.len() ==> #[trigger] as_u64(items@[i]) == Some(ids@[i]),
            _ => false,
        },
        UpdateOrLogId::Update(u) => {
            &&& j is Object
            &&& match u {
                Update::MakeNode(m) => str_field(j, "update-type"@) == Some("make-node"@)
                    && u64_field(j, "node"@) == Some(m.node_id)
                    && str_field(j, "type"@) == Some(m.node_type@),
                Update::Destroy(d) => str_field(j, "update-type"@) == Some("destroy"@)
                    && u64_field(j, "node"@) == Some(d.node_id),
                Update::Add(a) => str_field(j, "update-type"@) == Some("add"@)
                    && u64_field(j, "node"@) == Some(a.node_id)
                    && str_field(j, "attr"@) == Some(a.attribute@)
                    && u64_field(j, "index"@) == Some(a.index as u64)
                    && field(j, "value"@) == Some(a.value),
                Update::Remove(r) => str_field(j, "update-type"@) == Some("remove"@)
                    && u64_field(j, "node"@) == Some(r.node_id)
                    && str_field(j, "attr"@) == Some(r.attribute@)
                    && field(j, "value"@) == Some(r.value),
                Update::SetAttr(s) => str_field(j, "update-type"@) == Some("set-attr"@)
                    && u64_field(j, "node"@) == Some(s.node_id)
                    && str_field(j, "attr"@) == Some(s.attribute@)
                    && field(j, "value"@) == Some(s.value),
            }
        },
    }
}

/// The unsigned integer member `key` of an object's members.
fn u64_member(fields: &Vec<(String, Json)>, key: &str) -> (r: Option<u64>)
    ensures
        r == (match field_of(fields@, key@) {
            Some(v) => as_u64(v),
            None => None,
        }),
{
    match find_field(fields, key) {
        Some(i) => fields[i].1.as_u64(),
        None => None,
    }
}

/// A copy of the string member `key` of an object's members.
fn str_member(fields: &Vec<(String, Json)>, key: &str) -> (r: Option<String>)
    ensures
        match r {
            Some(s) => (match field_of(fields@, key@) {
                Some(v) => as_str(v),
                None => None,
            }) == Some(s@),
            None => (match field_of(fields@, key@) {
                Some(v) => as_str(v),
                None => None,
            }) is None,
        },
{
    match find_field(fields, key) {
        Some(i) => match fields[i].1.as_str() {
            Some(s) => Some(s.clone()),
            None => None,
        },
        None => None,
    }
}

/// Moves the member `key` out of an object's members, leaving `null` behind.
fn take_member(fields: &mut Vec<(String, Json)>, key: &str) -> (r: Option<Json>)
    ensures
        r == field_of(old(fields)@, key@),
{
    match find_field(fields, key) {
        Some(i) => {
            let mut taken = Json::Null;
            std::mem::swap(&mut fields[i].1, &mut taken);
            Some(taken)
        },
        None => None,
    }
}

/// Decodes an array of unsigned integers.
fn decode_ids(items: &Vec<Json>) -> (r: Option<Vec<u64>>)
    ensures
        r is Some <==> is_id_batch(Json::Array(*items)),
        r matches Some(ids) ==> decodes(Json::Array(*items), UpdateOrLogId::LogIds(ids)),
{
    let mut ids: Vec<u64> = Vec::new();
    let mut i: usize = 0;
    while i < items.len()
        invariant
            i <= items@.len(),
            ids@.len() == i,
            forall|k: int| 0 <= k < i ==> #[trigger] as_u64(items@[k]) == Some(ids@[k]),
        decreases items@.len() - i,
    {
        match items[i].as_u64() {
            Some(n) => ids.push(n),
            None => return None,
        }
        i = i + 1;
    }
    Some(ids)
}

/// The five tags of the mutation objects differ from each other.
proof fn lemma_tags_distinct()
    ensures
        "make-node"@ != "destroy"@,
        "make-node"@ != "add"@,
        "make-node"@ != "remove"@,
        "make-node"@ != "set-attr"@,
        "destroy"@ != "add"@,
        "destroy"@ != "remove"@,
        "destroy"@ != "set-attr"@,
        "add"@ != "remove"@,
        "add"@ != "set-attr"@,
        "remove"@ != "set-attr"@,
{
    reveal_strlit("make-node");
    reveal_strlit("destroy");
    reveal_strlit("add");
    reveal_strlit("remove");
    reveal_strlit("set-attr");
    assert("make-node"@.len() == 9);
    assert("destroy"@.len() == 7);
    assert("add"@.len() == 3);
    assert("remove"@.len() == 6);
    assert("set-attr"@.len() == 8);
    assert("destroy"@[0] != "set-attr"@[0]);
    assert("remove"@[0] != "destroy"@[0]);
}

/// Decodes one entry of a message.
pub fn decode_entry(j: Json) -> (r: Option<UpdateOrLogId>)
    ensures
        r is Some <==> decodable(j),
        r matches Some(e) ==> decodes(j, e),
{
    proof {
        lemma_tags_distinct();
    }
    match j {
        Json::Array(items) => match decode_ids(&items) {
            Some(ids) => Some(UpdateOrLogId::LogIds(ids)),
            None => None,
        },
        Json::Object(mut fields) => {
            let node_id = match u64_member(&fields, "node") {
                Some(n) => n,
                None => return None,
            };
            let tag = match str_member(&fields, "update-type") {
                Some(t) => t,
                None => return None,
            };
            if tag == "make-node".to_owned() {
                match str_member(&fields, "type") {
                    Some(node_type) => Some(UpdateOrLogId::Update(Update::MakeNode(MakeNode { node_id, node_type }))),
                    None => None,
                }
            } else if tag == "destroy".to_owned() {
                Some(UpdateOrLogId::Update(Update::Destroy(Destroy { node_id })))
            } else if tag == "add".to_owned() {
                let attribute = match str_member(&fields, "attr") {
                    Some(a) => a,
                    None => return None,
                };
                let index = match u64_member(&fields, "index") {
                    Some(n) => n,
                    None => return None,
                };
                if index > usize::MAX as u64 {
                    return None;
                }
                match take_member(&mut fields, "value") {
                    Some(value) => Some(UpdateOrLogId::Update(Update::Add(Add { node_id, attribute, index: index as usize, value }))),
                    None => None,
                }
            } else if tag == "remove".to_owned() || tag == "set-attr".to_owned() {
                let is_remove = tag == "remove".to_owned();
                let attribute = match str_member(&fields, "attr") {
                    Some(a) => a,
                    None => return None,
                };
                match take_member(&mut fields, "value") {
                    Some(value) => if is_remove {
                        Some(UpdateOrLogId::Update(Update::Remove(Remove { node_id, attribute, value })))
                    } else {
                        Some(UpdateOrLogId::Update(Update::SetAttr(SetAttr { node_id, attribute, value })))
                    },
                    None => None,
                }
            } else {
                None
            }
        },
        _ => None,
    }
}

/// Decodes a whole message, entry by entry, in order.
pub fn decode_message(msg: Json) -> (r: Result<Vec<UpdateOrLogId>, DecodeError>)
    ensures
        r is Ok ==> msg is Array && r->Ok_0@.len() == msg->Array_0@.len() && forall|i: int|
            0 <= i < msg->Array_0@.len() ==> decodes(msg->Array_0@[i], #[trigger] r->Ok_0@[i]),
        r == Err::<Vec<UpdateOrLogId>, DecodeError>(DecodeError::NotAList) <==> !(msg is Array),
        r matches Err(DecodeError::BadEntry(k)) ==> msg is Array && k < msg->Array_0@.len()
            && !decodable(msg->Array_0@[k as int])
            && forall|i: int| 0 <= i < k ==> #[trigger] decodable(msg->Array_0@[i]),
{
    let ghost input = msg;
    match msg {
        Json::Array(mut items) => {
            let ghost orig = items@;
            assert(input->Array_0@ == orig);
            let mut entries: Vec<UpdateOrLogId> = Vec::new();
            let mut i: usize = 0;
            while i < items.len()
                invariant
                    i <= items@.len(),
                    items@.len() == orig.len(),
                    input == msg,
                    input is Array,
                    orig == input->Array_0@,
                    forall|k: int| i <= k < orig.len() ==> items@[k] == orig[k],
                    entries@.len() == i,
                    forall|k: int| 0 <= k < i ==> decodes(orig[k], #[trigger] entries@[k]),
                    forall|k: int| 0 <= k < i ==> #[trigger] decodable(orig[k]),
                decreases items@.len() - i,
            {
                let mut taken = Json::Null;
                std::mem::swap(&mut items[i], &mut taken);
                assert(taken == orig[i as int]);
                match decode_entry(taken) {
                    Some(e) => entries.push(e),
                    None => {
                        return Err(DecodeError::BadEntry(i));
                    },
                }
                i = i + 1;
            }
            Ok(entries)
        },
        _ => Err(DecodeError::NotAList),
    }
}

} // verus!
