use photon::framing::{message_len, split_message};
use photon::json::{Json, Number};
use photon::transport::{decode_entry, decode_message, DecodeError, Update, UpdateOrLogId};

fn uint(n: u64) -> Json {
    Json::Number(Number { unsigned: Some(n), app_units: (n as i32).saturating_mul(60) })
}

fn text(s: &str) -> Json {
    Json::Str(s.to_string())
}

fn obj(fields: Vec<(&str, Json)>) -> Json {
    Json::Object(fields.into_iter().map(|(k, v)| (k.to_string(), v)).collect())
}

#[test]
fn header_is_big_endian() {
    assert_eq!(message_len(&[0, 0, 1, 2]), 258);
    assert_eq!(message_len(&[1, 0, 0, 0, 9]), 16_777_216);
    assert_eq!(message_len(&[0xff, 0xff, 0xff, 0xff]), u32::MAX);
}

#[test]
fn split_waits_for_whole_message() {
    assert_eq!(split_message(&[0, 0]), None);
    assert_eq!(split_message(&[0, 0, 0, 3, b'[', b']']), None);
    assert_eq!(split_message(&[0, 0, 0, 2, b'[', b']', 0]), Some((4, 6)));
    assert_eq!(split_message(&[0, 0, 0, 0]), Some((4, 4)));
}

#[test]
fn get_finds_first_member() {
    let v = obj(vec![("a", uint(1)), ("b", uint(2)), ("a", uint(3))]);
    assert_eq!(v.get("a").and_then(|x| x.as_u64()), Some(1));
    assert_eq!(v.get("b").and_then(|x| x.as_u64()), Some(2));
    assert!(v.get("c").is_none());
    assert!(uint(4).get("a").is_none());
}

#[test]
fn decodes_id_batch_and_make_node() {
    let msg = Json::Array(vec![
        Json::Array(vec![uint(7), uint(8)]),
        obj(vec![("update-type", text("make-node")), ("node", uint(1)), ("type", text("root"))]),
    ]);
    let entries = decode_message(msg).unwrap();
    assert_eq!(entries.len(), 2);
    match &entries[0] {
        UpdateOrLogId::LogIds(ids) => assert_eq!(ids, &vec![7, 8]),
        other => panic!("unexpected {:?}", other),
    }
    match &entries[1] {
        UpdateOrLogId::Update(Update::MakeNode(m)) => {
            assert_eq!(m.node_id, 1);
            assert_eq!(m.node_type, "root");
        }
        other => panic!("unexpected {:?}", other),
    }
}

#[test]
fn decodes_add_remove_set_attr() {
    let add = obj(vec![
        ("update-type", text("add")),
        ("node", uint(1)),
        ("attr", text("children")),
        ("index", uint(0)),
        ("value", uint(2)),
    ]);
    match decode_entry(add) {
        Some(UpdateOrLogId::Update(Update::Add(a))) => {
            assert_eq!((a.node_id, a.attribute.as_str(), a.index), (1, "children", 0));
            assert_eq!(a.value.as_u64(), Some(2));
        }
        other => panic!("unexpected {:?}", other),
    }
    let remove = obj(vec![("value", uint(2)), ("attr", text("children")), ("node", uint(1)), ("update-type", text("remove"))]);
    assert!(matches!(decode_entry(remove), Some(UpdateOrLogId::Update(Update::Remove(_)))));
    let set = obj(vec![("update-type", text("set-attr")), ("node", uint(2)), ("attr", text("on-click")), ("value", text("noria-handler-sync"))]);
    match decode_entry(set) {
        Some(UpdateOrLogId::Update(Update::SetAttr(s))) => {
            assert_eq!(s.attribute, "on-click");
            assert_eq!(s.value.as_str().map(|v| v.as_str()), Some("noria-handler-sync"));
        }
        other => panic!("unexpected {:?}", other),
    }
    let destroy = obj(vec![("update-type", text("destroy")), ("node", uint(9))]);
    assert!(matches!(decode_entry(destroy), Some(UpdateOrLogId::Update(Update::Destroy(d))) if d.node_id == 9));
}

#[test]
fn rejects_malformed_entries() {
    assert_eq!(decode_message(uint(1)).err(), Some(DecodeError::NotAList));
    let missing_node = obj(vec![("update-type", text("destroy"))]);
    let msg = Json::Array(vec![Json::Array(vec![]), missing_node]);
    assert_eq!(decode_message(msg).err(), Some(DecodeError::BadEntry(1)));
    let unknown_tag = obj(vec![("update-type", text("move")), ("node", uint(1))]);
    assert!(decode_entry(unknown_tag).is_none());
    let add_without_value = obj(vec![("update-type", text("add")), ("node", uint(1)), ("attr", text("children")), ("index", uint(0))]);
    assert!(decode_entry(add_without_value).is_none());
    let bad_id = Json::Array(vec![uint(1), text("x")]);
    assert!(decode_entry(bad_id).is_none());
    assert!(decode_entry(uint(42)).is_none());
}

#[test]
fn test_add() {
    let entries = || {
        Json::Array(vec![
            uint(42),
            obj(vec![("update-type", text("make-node")), ("type", text("foo")), ("node", uint(42))]),
            obj(vec![("update-type", text("make-node")), ("type", text("bar")), ("node", uint(43))]),
        ])
    };
    assert!(decode_entry(entries()).is_none());
    assert_eq!(decode_message(entries()).err(), Some(DecodeError::BadEntry(0)));
}
