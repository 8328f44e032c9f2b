use photon::document::{Document, ScrollCommand};
use photon::dom::{ApplyError, Callback, Color, Glyph, LayoutedText, NodeType, Point, Rect};
use photon::json::{Json, Number};
use photon::transport::{decode_message, Add, Destroy, MakeNode, Remove, SetAttr, Update, UpdateOrLogId};

fn uint(n: u64) -> Json {
    Json::Number(Number { unsigned: Some(n), app_units: (n as i32).saturating_mul(60) })
}

fn px(n: i32) -> Json {
    Json::Number(Number { unsigned: if n >= 0 { Some(n as u64) } else { None }, app_units: n * 60 })
}

fn text(s: &str) -> Json {
    Json::Str(s.to_string())
}

fn obj(fields: Vec<(&str, Json)>) -> Json {
    Json::Object(fields.into_iter().map(|(k, v)| (k.to_string(), v)).collect())
}

fn make(id: u64, ty: &str) -> UpdateOrLogId {
    UpdateOrLogId::Update(Update::MakeNode(MakeNode { node_id: id, node_type: ty.to_string() }))
}

fn destroy(id: u64) -> UpdateOrLogId {
    UpdateOrLogId::Update(Update::Destroy(Destroy { node_id: id }))
}

fn add(parent: u64, index: usize, child: u64) -> UpdateOrLogId {
    UpdateOrLogId::Update(Update::Add(Add { node_id: parent, attribute: "children".to_string(), index, value: uint(child) }))
}

fn remove(parent: u64, child: u64) -> UpdateOrLogId {
    UpdateOrLogId::Update(Update::Remove(Remove { node_id: parent, attribute: "children".to_string(), value: uint(child) }))
}

fn set(id: u64, attr: &str, value: Json) -> UpdateOrLogId {
    UpdateOrLogId::Update(Update::SetAttr(SetAttr { node_id: id, attribute: attr.to_string(), value }))
}

fn rect(x: i32, y: i32, w: i32, h: i32) -> Json {
    obj(vec![("x", px(x)), ("y", px(y)), ("width", px(w)), ("height", px(h))])
}

fn children(doc: &Document, id: u64) -> Vec<u64> {
    doc.get(id).unwrap().children.clone()
}

#[test]
fn message_builds_tree() {
    let msg = Json::Array(vec![
        Json::Array(vec![uint(7)]),
        obj(vec![("update-type", text("make-node")), ("node", uint(1)), ("type", text("root"))]),
        obj(vec![("update-type", text("make-node")), ("node", uint(2)), ("type", text("div"))]),
        obj(vec![("update-type", text("add")), ("node", uint(1)), ("attr", text("children")), ("index", uint(0)), ("value", uint(2))]),
    ]);
    let entries = decode_message(msg).unwrap();
    let mut doc = Document::new();
    let out = doc.apply_updates(&entries).unwrap();
    assert_eq!(doc.root_node(), Some(1));
    assert_eq!(children(&doc, 1), vec![2]);
    match &doc.get(2).unwrap().node_type {
        NodeType::Div { color, rect, on_click, on_wheel } => {
            assert_eq!(*color, Color { r: 0, g: 0, b: 0, a: 255 });
            assert_eq!(*rect, Rect { x: 0, y: 0, width: 0, height: 0 });
            assert_eq!((*on_click, *on_wheel), (Callback::Absent, Callback::Absent));
        }
        other => panic!("unexpected {:?}", other),
    }
    assert!(out.needs_rebuild);
    assert_eq!(out.log_ids, vec![7]);
    assert!(out.scrolls.is_empty());
}

#[test]
fn make_then_destroy_restores_count() {
    let mut doc = Document::new();
    doc.apply_updates(&vec![make(1, "root"), make(2, "div"), add(1, 0, 2)]).unwrap();
    let before = doc.len();
    let out = doc
        .apply_updates(&vec![make(10, "div"), make(11, "text"), make(12, "scroll"), destroy(10), destroy(11), destroy(12)])
        .unwrap();
    assert!(out.needs_rebuild);
    assert_eq!(doc.len(), before);
    assert!(doc.get(10).is_none() && doc.get(11).is_none() && doc.get(12).is_none());
    assert_eq!(children(&doc, 1), vec![2]);
}

#[test]
fn add_then_remove_restores_children() {
    let mut doc = Document::new();
    doc.apply_updates(&vec![make(1, "root"), make(2, "div"), make(3, "div"), make(4, "div"), add(1, 0, 2), add(1, 1, 3)])
        .unwrap();
    doc.apply_updates(&vec![add(1, 1, 4)]).unwrap();
    assert_eq!(children(&doc, 1), vec![2, 4, 3]);
    doc.apply_updates(&vec![remove(1, 4)]).unwrap();
    assert_eq!(children(&doc, 1), vec![2, 3]);
    doc.apply_updates(&vec![add(1, 2, 4), remove(1, 4)]).unwrap();
    assert_eq!(children(&doc, 1), vec![2, 3]);
}

#[test]
fn remove_takes_first_occurrence_and_ignores_absent() {
    let mut doc = Document::new();
    doc.apply_updates(&vec![make(1, "root"), make(2, "div"), make(3, "div"), add(1, 0, 2), add(1, 1, 3), add(1, 2, 2)])
        .unwrap();
    doc.apply_updates(&vec![remove(1, 2)]).unwrap();
    assert_eq!(children(&doc, 1), vec![3, 2]);
    let out = doc.apply_updates(&vec![remove(1, 99)]).unwrap();
    assert!(out.needs_rebuild);
    assert_eq!(children(&doc, 1), vec![3, 2]);
}

#[test]
fn scroll_offset_skips_rebuild() {
    let mut doc = Document::new();
    doc.apply_updates(&vec![make(1, "root"), make(5, "scroll"), add(1, 0, 5)]).unwrap();
    let out = doc.apply_updates(&vec![set(5, "scroll-position", obj(vec![("x", px(0)), ("y", px(120))]))]).unwrap();
    assert!(!out.needs_rebuild);
    assert_eq!(out.scrolls, vec![ScrollCommand { node: 5, offset: Point { x: 0, y: 7200 } }]);
    let out = doc.apply_updates(&vec![set(5, "position", rect(0, 0, 100, 50))]).unwrap();
    assert!(out.needs_rebuild);
    let out = doc.apply_updates(&vec![set(5, "content", rect(0, 0, 100, 500))]).unwrap();
    assert!(out.needs_rebuild);
    match &doc.get(5).unwrap().node_type {
        NodeType::Scroll { position, content, .. } => {
            assert_eq!(*position, Rect { x: 0, y: 0, width: 6000, height: 3000 });
            assert_eq!(*content, Rect { x: 0, y: 0, width: 6000, height: 30000 });
        }
        other => panic!("unexpected {:?}", other),
    }
}

#[test]
fn destroy_unknown_node_fails() {
    let mut doc = Document::new();
    doc.apply_updates(&vec![make(1, "root")]).unwrap();
    assert_eq!(doc.apply_updates(&vec![destroy(2)]).err(), Some(ApplyError::UnknownNode(2)));
    assert_eq!(doc.len(), 1);
}

#[test]
fn failing_entry_keeps_earlier_ones() {
    let mut doc = Document::new();
    let r = doc.apply_updates(&vec![make(1, "root"), make(2, "div"), destroy(3), make(4, "div")]);
    assert_eq!(r.err(), Some(ApplyError::UnknownNode(3)));
    assert_eq!(doc.len(), 2);
    assert!(doc.get(4).is_none());
}

#[test]
fn apply_errors() {
    let mut doc = Document::new();
    doc.apply_updates(&vec![make(1, "root"), make(2, "div")]).unwrap();
    assert_eq!(doc.apply_updates(&vec![make(2, "div")]).err(), Some(ApplyError::DuplicateNode(2)));
    assert_eq!(doc.apply_updates(&vec![make(3, "span")]).err(), Some(ApplyError::UnknownNodeType));
    assert_eq!(doc.apply_updates(&vec![add(1, 0, 9)]).err(), Some(ApplyError::UnknownNode(9)));
    assert_eq!(doc.apply_updates(&vec![add(8, 0, 2)]).err(), Some(ApplyError::UnknownNode(8)));
    assert_eq!(doc.apply_updates(&vec![add(1, 1, 2)]).err(), Some(ApplyError::BadIndex));
    assert_eq!(doc.apply_updates(&vec![remove(8, 2)]).err(), Some(ApplyError::UnknownNode(8)));
    assert_eq!(doc.apply_updates(&vec![set(8, "rect", rect(0, 0, 1, 1))]).err(), Some(ApplyError::UnknownNode(8)));
    assert_eq!(doc.apply_updates(&vec![set(2, "rect", text("wide"))]).err(), Some(ApplyError::BadValue));
    assert_eq!(doc.apply_updates(&vec![set(2, "on-click", text("maybe"))]).err(), Some(ApplyError::BadValue));
    let bad_child = UpdateOrLogId::Update(Update::Add(Add { node_id: 1, attribute: "children".to_string(), index: 0, value: text("2") }));
    assert_eq!(doc.apply_updates(&vec![bad_child]).err(), Some(ApplyError::BadValue));
    assert_eq!(children(&doc, 1), Vec::<u64>::new());
}

#[test]
fn other_attributes_only_ask_for_rebuild() {
    let mut doc = Document::new();
    doc.apply_updates(&vec![make(1, "root"), make(2, "div")]).unwrap();
    let bogus = UpdateOrLogId::Update(Update::Add(Add { node_id: 2, attribute: "style".to_string(), index: 5, value: Json::Null }));
    let out = doc.apply_updates(&vec![bogus, set(2, "tooltip", text("hi")), set(1, "color", Json::Null)]).unwrap();
    assert!(out.needs_rebuild);
    assert_eq!(doc.len(), 2);
}

#[test]
fn div_attributes() {
    let mut doc = Document::new();
    doc.apply_updates(&vec![make(2, "div")]).unwrap();
    let too_bright = obj(vec![("r", uint(10)), ("g", uint(20)), ("b", uint(300)), ("a", uint(255))]);
    assert_eq!(doc.apply_updates(&vec![set(2, "color", too_bright)]).err(), Some(ApplyError::BadValue));
    let color = obj(vec![("r", uint(10)), ("g", uint(20)), ("b", uint(44)), ("a", uint(255))]);
    doc.apply_updates(&vec![
        set(2, "color", color),
        set(2, "rect", rect(1, 2, 3, 4)),
        set(2, "on-click", text("noria-handler-sync")),
        set(2, "on-wheel", text("noria-handler-async")),
    ])
    .unwrap();
    match &doc.get(2).unwrap().node_type {
        NodeType::Div { color, rect, on_click, on_wheel } => {
            assert_eq!(*color, Color { r: 10, g: 20, b: 44, a: 255 });
            assert_eq!(*rect, Rect { x: 60, y: 120, width: 180, height: 240 });
            assert_eq!(*on_click, Callback::Sync);
            assert_eq!(*on_wheel, Callback::Async);
        }
        other => panic!("unexpected {:?}", other),
    }
    doc.apply_updates(&vec![set(2, "on-click", text("-noria-handler"))]).unwrap();
    match &doc.get(2).unwrap().node_type {
        NodeType::Div { on_click, .. } => assert_eq!(*on_click, Callback::Absent),
        other => panic!("unexpected {:?}", other),
    }
}

#[test]
fn text_changes_ask_for_shaping() {
    let mut doc = Document::new();
    doc.apply_updates(&vec![make(3, "text")]).unwrap();
    let out = doc.apply_updates(&vec![set(3, "text", text("hello"))]).unwrap();
    assert!(out.needs_rebuild);
    assert_eq!(out.reshape, vec![3]);
    let layout = LayoutedText { glyphs: vec![Glyph { index: 5, x: 0, y: 600 }], width: 300, height: 840 };
    assert!(doc.set_text_layout(3, layout));
    match &doc.get(3).unwrap().node_type {
        NodeType::Text { text, layout, .. } => {
            assert_eq!(text, "hello");
            assert_eq!(layout.as_ref().map(|l| l.width), Some(300));
        }
        other => panic!("unexpected {:?}", other),
    }
    let out = doc.apply_updates(&vec![set(3, "origin", obj(vec![("x", px(5)), ("y", px(6))]))]).unwrap();
    assert_eq!(out.reshape, vec![3]);
    match &doc.get(3).unwrap().node_type {
        NodeType::Text { origin, layout, .. } => {
            assert_eq!(*origin, Point { x: 300, y: 360 });
            assert!(layout.is_none());
        }
        other => panic!("unexpected {:?}", other),
    }
    let empty = LayoutedText { glyphs: vec![], width: 0, height: 0 };
    assert!(!doc.set_text_layout(4, empty));
}

#[test]
fn last_id_batch_wins() {
    let mut doc = Document::new();
    let out = doc
        .apply_updates(&vec![UpdateOrLogId::LogIds(vec![1, 2]), UpdateOrLogId::LogIds(vec![3])])
        .unwrap();
    assert_eq!(out.log_ids, vec![3]);
    assert!(!out.needs_rebuild);
}

#[test]
fn unknown_node_fails_for_any_attribute() {
    let mut doc = Document::new();
    doc.apply_updates(&vec![make(1, "root")]).unwrap();
    let add_style = UpdateOrLogId::Update(Update::Add(Add { node_id: 99, attribute: "style".to_string(), index: 0, value: Json::Null }));
    assert_eq!(doc.apply_updates(&vec![add_style]).err(), Some(ApplyError::UnknownNode(99)));
    let remove_style = UpdateOrLogId::Update(Update::Remove(Remove { node_id: 98, attribute: "style".to_string(), value: Json::Null }));
    assert_eq!(doc.apply_updates(&vec![remove_style]).err(), Some(ApplyError::UnknownNode(98)));
    assert_eq!(doc.len(), 1);
}

#[test]
fn interleaved_make_destroy_restores_nodes() {
    let mut doc = Document::new();
    doc.apply_updates(&vec![make(1, "root"), make(2, "div"), add(1, 0, 2)]).unwrap();
    let out = doc
        .apply_updates(&vec![make(10, "div"), destroy(10), make(11, "text"), make(12, "scroll"), destroy(12), destroy(11)])
        .unwrap();
    assert!(out.needs_rebuild);
    assert_eq!(doc.len(), 2);
    assert_eq!(children(&doc, 1), vec![2]);
    assert_eq!(children(&doc, 2), Vec::<u64>::new());
}

#[test]
fn references_removed_before_destroy_leave_no_dangling_child() {
    let mut doc = Document::new();
    doc.apply_updates(&vec![make(1, "root"), make(2, "div"), add(1, 0, 2)]).unwrap();
    doc.apply_updates(&vec![make(3, "div"), add(2, 0, 3), add(1, 1, 3), remove(2, 3), remove(1, 3), destroy(3)]).unwrap();
    assert_eq!(doc.len(), 2);
    for id in [1u64, 2] {
        for c in children(&doc, id) {
            assert!(doc.get(c).is_some());
        }
    }
    assert_eq!(children(&doc, 1), vec![2]);
}
