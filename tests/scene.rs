use photon::document::Document;
use photon::dom::{Color, Glyph, LayoutedText, Point, Rect};
use photon::events::{click_messages, delta_vector, wheel_messages, DispatchError, EventKey, Vector, WheelDelta};
use photon::json::{Json, Number};
use photon::scene::{build_scene, HitItem, Primitive, SceneError, Space};
use photon::session::{apply_message, SessionError};
use photon::dom::ApplyError;
use photon::transport::{Add, Destroy, MakeNode, SetAttr, Update, UpdateOrLogId};

fn uint(n: u64) -> Json {
    Json::Number(Number { unsigned: Some(n), app_units: (n as i32).saturating_mul(60) })
}

fn px(n: i32) -> Json {
    Json::Number(Number { unsigned: if n >= 0 { Some(n as u64) } else { None }, app_units: n * 60 })
}

fn obj(fields: Vec<(&str, Json)>) -> Json {
    Json::Object(fields.into_iter().map(|(k, v)| (k.to_string(), v)).collect())
}

fn make(id: u64, ty: &str) -> UpdateOrLogId {
    UpdateOrLogId::Update(Update::MakeNode(MakeNode { node_id: id, node_type: ty.to_string() }))
}

fn add(parent: u64, index: usize, child: u64) -> UpdateOrLogId {
    UpdateOrLogId::Update(Update::Add(Add { node_id: parent, attribute: "children".to_string(), index, value: uint(child) }))
}

fn set(id: u64, attr: &str, value: Json) -> UpdateOrLogId {
    UpdateOrLogId::Update(Update::SetAttr(SetAttr { node_id: id, attribute: attr.to_string(), value }))
}

fn rect(x: i32, y: i32, w: i32, h: i32) -> Json {
    obj(vec![("x", px(x)), ("y", px(y)), ("width", px(w)), ("height", px(h))])
}

const VIEWPORT: Rect = Rect { x: 0, y: 0, width: 48000, height: 36000 };

fn page() -> Document {
    let mut doc = Document::new();
    doc.apply_updates(&vec![
        make(1, "root"),
        make(2, "div"),
        make(5, "scroll"),
        make(6, "div"),
        add(1, 0, 2),
        add(1, 1, 5),
        add(5, 0, 6),
        set(2, "rect", rect(10, 10, 100, 40)),
        set(5, "position", rect(0, 100, 200, 100)),
        set(5, "content", rect(0, 100, 200, 400)),
        set(6, "rect", rect(0, 100, 50, 50)),
    ])
    .unwrap();
    doc
}

#[test]
fn empty_document_has_empty_scene() {
    let doc = Document::new();
    assert!(build_scene(&doc, VIEWPORT).unwrap().items.is_empty());
}

#[test]
fn scene_follows_tree_order() {
    let doc = page();
    let scene = build_scene(&doc, VIEWPORT).unwrap();
    let kinds: Vec<&str> = scene
        .items
        .iter()
        .map(|p| match p {
            Primitive::PushStackingContext { .. } => "push",
            Primitive::PopStackingContext => "pop",
            Primitive::Border { .. } => "border",
            Primitive::ScrollFrame { .. } => "frame",
            Primitive::HitRect { .. } => "hit",
            Primitive::Text { .. } => "text",
        })
        .collect();
    assert_eq!(kinds, vec!["push", "border", "push", "pop", "frame", "hit", "border", "push", "pop", "pop"]);
    match &scene.items[0] {
        Primitive::PushStackingContext { rect, space } => {
            assert_eq!(*rect, VIEWPORT);
            assert_eq!(*space, Space::Root);
        }
        other => panic!("unexpected {:?}", other),
    }
    match &scene.items[4] {
        Primitive::ScrollFrame { node, parent, content, viewport } => {
            assert_eq!((*node, *parent), (5, Space::Root));
            assert_eq!(*viewport, Rect { x: 0, y: 6000, width: 12000, height: 6000 });
            assert_eq!(*content, Rect { x: 0, y: 6000, width: 12000, height: 24000 });
        }
        other => panic!("unexpected {:?}", other),
    }
    match &scene.items[6] {
        Primitive::Border { space, tag, .. } => {
            assert_eq!(*space, Space::Scroll(5));
            assert_eq!(*tag, None);
        }
        other => panic!("unexpected {:?}", other),
    }
}

#[test]
fn scopes_balance_over_nested_tree() {
    let mut doc = page();
    doc.apply_updates(&vec![make(7, "scroll"), add(6, 0, 7), make(8, "div"), add(7, 0, 8)]).unwrap();
    let scene = build_scene(&doc, VIEWPORT).unwrap();
    let pushes = scene.items.iter().filter(|p| matches!(p, Primitive::PushStackingContext { .. })).count();
    let pops = scene.items.iter().filter(|p| matches!(p, Primitive::PopStackingContext)).count();
    assert_eq!(pushes, pops);
    assert!(matches!(scene.items.last(), Some(Primitive::PopStackingContext)));
}

#[test]
fn text_is_drawn_once_shaped() {
    let mut doc = page();
    doc.apply_updates(&vec![make(3, "text"), add(2, 0, 3), set(3, "origin", obj(vec![("x", px(2)), ("y", px(3))]))]).unwrap();
    let scene = build_scene(&doc, VIEWPORT).unwrap();
    assert!(!scene.items.iter().any(|p| matches!(p, Primitive::Text { .. })));
    let layout = LayoutedText { glyphs: vec![Glyph { index: 9, x: 0, y: 700 }], width: 420, height: 840 };
    assert!(doc.set_text_layout(3, layout));
    let scene = build_scene(&doc, VIEWPORT).unwrap();
    let text = scene.items.iter().find_map(|p| match p {
        Primitive::Text { rect, space, glyphs, color } => Some((*rect, *space, glyphs.clone(), *color)),
        _ => None,
    });
    assert_eq!(
        text,
        Some((
            Rect { x: 120, y: 180, width: 420, height: 840 },
            Space::Root,
            vec![Glyph { index: 9, x: 0, y: 700 }],
            Color { r: 0, g: 0, b: 0, a: 255 }
        ))
    );
}

#[test]
fn scene_errors() {
    let mut doc = page();
    doc.apply_updates(&vec![add(2, 0, 6)]).unwrap();
    doc.apply_updates(&vec![add(6, 0, 2)]).unwrap();
    assert_eq!(build_scene(&doc, VIEWPORT).err(), Some(SceneError::Cyclic));

    let mut doc = page();
    doc.apply_updates(&vec![make(9, "div"), add(2, 0, 9), UpdateOrLogId::Update(Update::Destroy(Destroy { node_id: 9 }))]).unwrap();
    assert_eq!(build_scene(&doc, VIEWPORT).err(), Some(SceneError::MissingNode(9)));

    let mut doc = Document::new();
    doc.apply_updates(&vec![make(1, "root"), UpdateOrLogId::Update(Update::Destroy(Destroy { node_id: 1 })), make(1, "div")]).unwrap();
    assert_eq!(build_scene(&doc, VIEWPORT).err(), Some(SceneError::NoScope));
}

#[test]
fn click_on_tagged_div_sends_one_message() {
    let mut doc = page();
    doc.apply_updates(&vec![set(2, "on-click", Json::Str("noria-handler-sync".to_string()))]).unwrap();
    let scene = build_scene(&doc, VIEWPORT).unwrap();
    let hits = scene.hit_test(Point { x: 1200, y: 1800 });
    assert_eq!(hits, vec![HitItem { node: 2, point: Point { x: 600, y: 1200 } }]);
    let msgs = click_messages(&doc, &hits, 4, 1000).unwrap();
    assert_eq!(msgs.len(), 1);
    assert_eq!(msgs[0].node, 2);
    assert_eq!(msgs[0].key, EventKey::OnClick);
    assert_eq!(msgs[0].key.name(), "on-click");
    assert_eq!((msgs[0].log_id, msgs[0].ts), (4, 1000));
    assert_eq!(msgs[0].arguments, Vector { x: 600, y: 1200 });
    assert!(scene.hit_test(Point { x: 599, y: 1800 }).is_empty());
    assert!(scene.hit_test(Point { x: 6600, y: 1800 }).is_empty());
}

#[test]
fn untagged_nodes_take_no_hits() {
    let doc = page();
    let scene = build_scene(&doc, VIEWPORT).unwrap();
    assert!(scene.hit_test(Point { x: 1200, y: 1800 }).is_empty());
}

#[test]
fn hits_come_front_to_back_and_wheel_reaches_both() {
    let mut doc = page();
    doc.apply_updates(&vec![
        set(5, "on-wheel", Json::Str("noria-handler-async".to_string())),
        set(6, "on-wheel", Json::Str("noria-handler-sync".to_string())),
    ])
    .unwrap();
    let scene = build_scene(&doc, VIEWPORT).unwrap();
    let hits = scene.hit_test(Point { x: 60, y: 6060 });
    assert_eq!(
        hits,
        vec![HitItem { node: 6, point: Point { x: 60, y: 60 } }, HitItem { node: 5, point: Point { x: 60, y: 60 } }]
    );
    let msgs = wheel_messages(&doc, &hits, 1, 2, WheelDelta::Lines { dx: 0, dy: 60 }).unwrap();
    assert_eq!(msgs.len(), 2);
    assert_eq!((msgs[0].node, msgs[1].node), (6, 5));
    assert!(msgs.iter().all(|m| m.key == EventKey::OnWheel && m.arguments == Vector { x: 0, y: -2280 }));
    assert!(click_messages(&doc, &hits, 1, 2).unwrap().is_empty());
}

#[test]
fn wheel_delta_formula() {
    assert_eq!(delta_vector(WheelDelta::Lines { dx: 60, dy: -120 }), Vector { x: -60, y: 4560 });
    assert_eq!(delta_vector(WheelDelta::Pixels { dx: 30, dy: -45 }), Vector { x: -30, y: 45 });
    assert_eq!(delta_vector(WheelDelta::Lines { dx: i32::MIN, dy: i32::MIN }), Vector { x: 2147483648, y: 81604378624 });
}

#[test]
fn hit_on_destroyed_node_fails() {
    let mut doc = page();
    doc.apply_updates(&vec![set(2, "on-click", Json::Str("noria-handler-sync".to_string()))]).unwrap();
    let scene = build_scene(&doc, VIEWPORT).unwrap();
    let hits = scene.hit_test(Point { x: 1200, y: 1800 });
    doc.apply_updates(&vec![UpdateOrLogId::Update(Update::Destroy(Destroy { node_id: 2 }))]).unwrap();
    assert_eq!(click_messages(&doc, &hits, 0, 0).err(), Some(DispatchError::UnknownNode(2)));
}

#[test]
fn message_rebuilds_scene_only_when_asked() {
    let mut doc = page();
    let out = apply_message(&mut doc, &vec![set(5, "scroll-position", obj(vec![("x", px(0)), ("y", px(10))]))], VIEWPORT).unwrap();
    assert!(!out.applied.needs_rebuild);
    assert!(out.scene.is_none());
    let out = apply_message(&mut doc, &vec![set(2, "rect", rect(0, 0, 10, 10))], VIEWPORT).unwrap();
    assert!(out.applied.needs_rebuild);
    assert_eq!(out.scene.map(|s| s.items.len()), Some(10));
    let err = apply_message(&mut doc, &vec![UpdateOrLogId::Update(Update::Destroy(Destroy { node_id: 77 }))], VIEWPORT);
    assert_eq!(err.err(), Some(SessionError::Apply(ApplyError::UnknownNode(77))));
    let err = apply_message(&mut doc, &vec![make(9, "div"), add(2, 0, 9), UpdateOrLogId::Update(Update::Destroy(Destroy { node_id: 9 }))], VIEWPORT);
    assert_eq!(err.err(), Some(SessionError::Scene(SceneError::MissingNode(9))));
}
