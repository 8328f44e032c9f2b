//! The document: nodes keyed by the identifiers that the peer assigns, each
//! with its kind, its attributes and its ordered children.

use vstd::prelude::*;
use crate::json::{Json, field, as_u64, as_str, as_app_units};

verus! {

/// Identifier of a node, assigned by the peer.
pub type NodeId = u64;

/// A point, in app units (1/60 of a pixel).
#[derive(Clone, Copy, Debug, PartialEq, Eq, Structural)]
pub struct Point {
    pub x: i32,
    pub y: i32,
}

/// A rectangle, in app units: its origin and its size.
#[derive(Clone, Copy, Debug, PartialEq, Eq, Structural)]
pub struct Rect {
    pub x: i32,
    pub y: i32,
    pub width: i32,
    pub height: i32,
}

/// An 8-bit RGBA color.
#[derive(Clone, Copy, Debug, PartialEq, Eq, Structural)]
pub struct Color {
    pub r: u8,
    pub g: u8,
    pub b: u8,
    pub a: u8,
}

/// Opaque black, the color a node starts with.
pub open spec fn black() -> Color {
    Color { r: 0, g: 0, b: 0, a: 255 }
}

/// The empty rectangle at the origin, the geometry a node starts with.
pub open spec fn empty_rect() -> Rect {
    Rect { x: 0, y: 0, width: 0, height: 0 }
}

/// Whether and how an input hit on a node is reported to the peer.
#[derive(Clone, Copy, Debug, PartialEq, Eq, Structural)]
pub enum Callback {
    Sync,
    Async,
    Absent,
}

impl Callback {
    /// A callback is present.
    pub fn is_some(&self) -> (r: bool)
        ensures
            r == !(*self is Absent),
    {
        match self {
            Callback::Absent => false,
            _ => true,
        }
    }
}

/// A positioned glyph of shaped text, relative to the text's origin.
#[derive(Clone, Copy, Debug, PartialEq, Eq, Structural)]
pub struct Glyph {
    pub index: u32,
    pub x: i32,
    pub y: i32,
}

/// Shaped text: its glyphs and the size of its bounding box, in app units.
#[derive(Debug)]
pub struct LayoutedText {
    pub glyphs: Vec<Glyph>,
    pub width: i32,
    pub height: i32,
}

/// What a text layout holds.
pub struct LayoutModel {
    pub glyphs: Seq<Glyph>,
    pub width: i32,
    pub height: i32,
}

impl View for LayoutedText {
    type V = LayoutModel;

    open spec fn view(&self) -> LayoutModel {
        LayoutModel { glyphs: self.glyphs@, width: self.width, height: self.height }
    }
}

/// The kind of a node and its attributes.
#[derive(Debug)]
pub enum NodeType {
    Root,
    Div { color: Color, rect: Rect, on_click: Callback, on_wheel: Callback },
    Text { text: String, origin: Point, layout: Option<LayoutedText>, color: Color },
    Scroll { position: Rect, content: Rect, on_wheel: Callback },
}

/// What a node's kind and attributes are.
pub enum Kind {
    Root,
    Div { color: Color, rect: Rect, on_click: Callback, on_wheel: Callback },
    Text { text: Seq<char>, origin: Point, layout: Option<LayoutModel>, color: Color },
    Scroll { position: Rect, content: Rect, on_wheel: Callback },
}

impl View for NodeType {
    type V = Kind;

    open spec fn view(&self) -> Kind {
        match self {
            NodeType::Root => Kind::Root,
            NodeType::Div { color, rect, on_click, on_wheel } => Kind::Div {
                color: *color,
                rect: *rect,
                on_click: *on_click,
                on_wheel: *on_wheel,
            },
            NodeType::Text { text, origin, layout, color } => Kind::Text {
                text: text@,
                origin: *origin,
                layout: match layout {
                    Some(l) => Some(l@),
                    None => None,
                },
                color: *color,
            },
            NodeType::Scroll { position, content, on_wheel } => Kind::Scroll {
                position: *position,
                content: *content,
                on_wheel: *on_wheel,
            },
        }
    }
}

/// The kind that a `make-node` of the given type name creates.
pub open spec fn kind_of_type(name: Seq<char>) -> Option<Kind> {
    if name == "root"@ {
        Some(Kind::Root)
    } else if name == "text"@ {
        Some(Kind::Text { text: Seq::empty(), origin: Point { x: 0, y: 0 }, layout: None, color: black() })
    } else if name == "div"@ {
        Some(Kind::Div { color: black(), rect: empty_rect(), on_click: Callback::Absent, on_wheel: Callback::Absent })
    } else if name == "scroll"@ {
        Some(Kind::Scroll { position: empty_rect(), content: empty_rect(), on_wheel: Callback::Absent })
    } else {
        None
    }
}

/// `s` spells `lit`.
pub fn is_word(s: &String, lit: &str) -> (r: bool)
    ensures
        r == (s@ == lit@),
{
    *s == lit.to_owned()
}

impl NodeType {
    /// A node of the named type with its attributes at their defaults.
    pub fn create(node_type: &String) -> (r: Option<NodeType>)
        ensures
            match r {
                Some(t) => kind_of_type(node_type@) == Some(t@),
                None => kind_of_type(node_type@) is None,
            },
    {
        if is_word(node_type, "root") {
            Some(NodeType::Root)
        } else if is_word(node_type, "text") {
            Some(NodeType::Text { text: String::new(), origin: Point { x: 0, y: 0 }, layout: None, color: Color { r: 0, g: 0, b: 0, a: 255 } })
        } else if is_word(node_type, "div") {
            Some(NodeType::Div { color: Color { r: 0, g: 0, b: 0, a: 255 }, rect: Rect { x: 0, y: 0, width: 0, height: 0 }, on_click: Callback::Absent, on_wheel: Callback::Absent })
        } else if is_word(node_type, "scroll") {
            Some(NodeType::Scroll { position: Rect { x: 0, y: 0, width: 0, height: 0 }, content: Rect { x: 0, y: 0, width: 0, height: 0 }, on_wheel: Callback::Absent })
        } else {
            None
        }
    }
}

/// The length member `key` of a value.
pub open spec fn length_field(v: Json, key: Seq<char>) -> Option<i32> {
    match field(v, key) {
        Some(n) => as_app_units(n),
        None => None,
    }
}

/// A value read as a rectangle `{x, y, width, height}`.
pub open spec fn rect_of(v: Json) -> Option<Rect> {
    match (length_field(v, "x"@), length_field(v, "y"@), length_field(v, "width"@), length_field(v, "height"@)) {
        (Some(x), Some(y), Some(width), Some(height)) => Some(Rect { x, y, width, height }),
        _ => None,
    }
}

/// A value read as a point `{x, y}`.
pub open spec fn point_of(v: Json) -> Option<Point> {
    match (length_field(v, "x"@), length_field(v, "y"@)) {
        (Some(x), Some(y)) => Some(Point { x, y }),
        _ => None,
    }
}

/// The channel member `key` of a color value, an integer from 0 to 255.
pub open spec fn channel_field(v: Json, key: Seq<char>) -> Option<u8> {
    match field(v, key) {
        Some(n) => match as_u64(n) {
            Some(c) => if c <= 255 { Some(c as u8) } else { None },
            None => None,
        },
        None => None,
    }
}

/// A value read as a color `{r, g, b, a}`.
pub open spec fn color_of(v: Json) -> Option<Color> {
    match (channel_field(v, "r"@), channel_field(v, "g"@), channel_field(v, "b"@), channel_field(v, "a"@)) {
        (Some(r), Some(g), Some(b), Some(a)) => Some(Color { r, g, b, a }),
        _ => None,
    }
}

/// A value read as a callback policy.
pub open spec fn callback_of(v: Json) -> Option<Callback> {
    match as_str(v) {
        Some(s) => if s == "noria-handler-sync"@ {
            Some(Callback::Sync)
        } else if s == "noria-handler-async"@ {
            Some(Callback::Async)
        } else if s == "-noria-handler"@ {
            Some(Callback::Absent)
        } else {
            None
        },
        None => None,
    }
}

fn length_member(v: &Json, key: &str) -> (r: Option<i32>)
    ensures
        r == length_field(*v, key@),
{
    match v.get(key) {
        Some(n) => n.as_app_units(),
        None => None,
    }
}

fn channel_member(v: &Json, key: &str) -> (r: Option<u8>)
    ensures
        r == channel_field(*v, key@),
{
    match v.get(key) {
        Some(n) => match n.as_u64() {
            Some(c) => if c <= 255 { Some(c as u8) } else { None },
            None => None,
        },
        None => None,
    }
}

/// Reads a rectangle `{x, y, width, height}`.
pub fn parse_rect(v: &Json) -> (r: Option<Rect>)
    ensures
        r == rect_of(*v),
{
    let x = length_member(v, "x");
    let y = length_member(v, "y");
    let width = length_member(v, "width");
    let height = length_member(v, "height");
    match (x, y, width, height) {
        (Some(x), Some(y), Some(width), Some(height)) => Some(Rect { x, y, width, height }),
        _ => None,
    }
}

/// Reads a point `{x, y}`.
pub fn parse_point(v: &Json) -> (r: Option<Point>)
    ensures
        r == point_of(*v),
{
    let x = length_member(v, "x");
    let y = length_member(v, "y");
    match (x, y) {
        (Some(x), Some(y)) => Some(Point { x, y }),
        _ => None,
    }
}

/// Reads a color `{r, g, b, a}`.
pub fn parse_color(v: &Json) -> (r: Option<Color>)
    ensures
        r == color_of(*v),
{
    let r = channel_member(v, "r");
    let g = channel_member(v, "g");
    let b = channel_member(v, "b");
    let a = channel_member(v, "a");
    match (r, g, b, a) {
        (Some(r), Some(g), Some(b), Some(a)) => Some(Color { r, g, b, a }),
        _ => None,
    }
}

/// Reads a callback policy from its sentinel string.
pub fn parse_callback(v: &Json) -> (r: Option<Callback>)
    ensures
        r == callback_of(*v),
{
    match v.as_str() {
        Some(s) => if is_word(s, "noria-handler-sync") {
            Some(Callback::Sync)
        } else if is_word(s, "noria-handler-async") {
            Some(Callback::Async)
        } else if is_word(s, "-noria-handler") {
            Some(Callback::Absent)
        } else {
            None
        },
        None => None,
    }
}

/// Why a batch of updates could not be applied in full.
#[derive(Clone, Copy, Debug, PartialEq, Eq, Structural)]
pub enum ApplyError {
    /// An update names a node that the document does not hold.
    UnknownNode(NodeId),
    /// A `make-node` names a node that the document already holds.
    DuplicateNode(NodeId),
    /// A `make-node` names a type that does not exist.
    UnknownNodeType,
    /// A value does not have the shape that its attribute calls for.
    BadValue,
    /// An `add` inserts past the end of the children.
    BadIndex,
}

/// What setting an attribute asks of the client besides the change itself.
#[derive(Clone, Copy, Debug, PartialEq, Eq, Structural)]
pub enum AttrEffect {
    /// The scene must be built again.
    Rebuild,
    /// The scene must be built again, and the node's text shaped again first.
    Reshape,
    /// The scroll frame of the node moves to this offset; the scene stays.
    ScrollTo(Point),
}

/// A value that must be a callback policy, set on a `Div`.
pub open spec fn set_div_callback(k: Kind, click: bool, v: Json) -> Result<(Kind, AttrEffect), ApplyError> {
    match (k, callback_of(v)) {
        (Kind::Div { color, rect, on_click, on_wheel }, Some(c)) => if click {
            Ok((Kind::Div { color, rect, on_click: c, on_wheel }, AttrEffect::Rebuild))
        } else {
            Ok((Kind::Div { color, rect, on_click, on_wheel: c }, AttrEffect::Rebuild))
        },
        _ => Err(ApplyError::BadValue),
    }
}

/// The kind after setting attribute `attr` to `v`, with the effect of the
/// change. An attribute that the kind does not have changes nothing but asks
/// for a rebuild.
pub open spec fn set_attr_spec(k: Kind, attr: Seq<char>, v: Json) -> Result<(Kind, AttrEffect), ApplyError> {
    match k {
        Kind::Root => Ok((k, AttrEffect::Rebuild)),
        Kind::Div { color, rect, on_click, on_wheel } => if attr == "color"@ {
            match color_of(v) {
                Some(c) => Ok((Kind::Div { color: c, rect, on_click, on_wheel }, AttrEffect::Rebuild)),
                None => Err(ApplyError::BadValue),
            }
        } else if attr == "rect"@ {
            match rect_of(v) {
                Some(r) => Ok((Kind::Div { color, rect: r, on_click, on_wheel }, AttrEffect::Rebuild)),
                None => Err(ApplyError::BadValue),
            }
        } else if attr == "on-click"@ {
            set_div_callback(k, true, v)
        } else if attr == "on-wheel"@ {
            set_div_callback(k, false, v)
        } else {
            Ok((k, AttrEffect::Rebuild))
        },
        Kind::Scroll { position, content, on_wheel } => if attr == "position"@ {
            match rect_of(v) {
                Some(r) => Ok((Kind::Scroll { position: r, content, on_wheel }, AttrEffect::Rebuild)),
                None => Err(ApplyError::BadValue),
            }
        } else if attr == "content"@ {
            match rect_of(v) {
                Some(r) => Ok((Kind::Scroll { position, content: r, on_wheel }, AttrEffect::Rebuild)),
                None => Err(ApplyError::BadValue),
            }
        } else if attr == "scroll-position"@ {
            match point_of(v) {
                Some(p) => Ok((k, AttrEffect::ScrollTo(p))),
                None => Err(ApplyError::BadValue),
            }
        } else if attr == "on-wheel"@ {
            match callback_of(v) {
                Some(c) => Ok((Kind::Scroll { position, content, on_wheel: c }, AttrEffect::Rebuild)),
                None => Err(ApplyError::BadValue),
            }
        } else {
            Ok((k, AttrEffect::Rebuild))
        },
        Kind::Text { text, origin, layout, color } => if attr == "text"@ {
            match as_str(v) {
                Some(t) => Ok((Kind::Text { text: t, origin, layout: None, color }, AttrEffect::Reshape)),
                None => Err(ApplyError::BadValue),
            }
        } else if attr == "origin"@ {
            match point_of(v) {
                Some(p) => Ok((Kind::Text { text, origin: p, layout: None, color }, AttrEffect::Reshape)),
                None => Err(ApplyError::BadValue),
            }
        } else if attr == "color"@ {
            match color_of(v) {
                Some(c) => Ok((Kind::Text { text, origin, layout, color: c }, AttrEffect::Rebuild)),
                None => Err(ApplyError::BadValue),
            }
        } else {
            Ok((k, AttrEffect::Rebuild))
        },
    }
}

impl NodeType {
    /// Sets attribute `attribute` to `value`; on failure nothing changes.
    pub fn set_attr(&mut self, attribute: &String, value: &Json) -> (r: Result<AttrEffect, ApplyError>)
        ensures
            match set_attr_spec(old(self)@, attribute@, *value) {
                Ok((k, e)) => r == Ok::<AttrEffect, ApplyError>(e) && final(self)@ == k,
                Err(err) => r == Err::<AttrEffect, ApplyError>(err) && final(self)@ == old(self)@,
            },
    {
        match self {
            NodeType::Root => Ok(AttrEffect::Rebuild),
            NodeType::Div { color, rect, on_click, on_wheel } => {
                if is_word(attribute, "color") {
                    match parse_color(value) {
                        Some(c) => {
                            *color = c;
                            Ok(AttrEffect::Rebuild)
                        },
                        None => Err(ApplyError::BadValue),
                    }
                } else if is_word(attribute, "rect") {
                    match parse_rect(value) {
                        Some(r) => {
                            *rect = r;
                            Ok(AttrEffect::Rebuild)
                        },
                        None => Err(ApplyError::BadValue),
                    }
                } else if is_word(attribute, "on-click") {
                    match parse_callback(value) {
                        Some(c) => {
                            *on_click = c;
                            Ok(AttrEffect::Rebuild)
                        },
                        None => Err(ApplyError::BadValue),
                    }
                } else if is_word(attribute, "on-wheel") {
                    match parse_callback(value) {
                        Some(c) => {
                            *on_wheel = c;
                            Ok(AttrEffect::Rebuild)
                        },
                        None => Err(ApplyError::BadValue),
                    }
                } else {
                    Ok(AttrEffect::Rebuild)
                }
            },
            NodeType::Scroll { position, content, on_wheel } => {
                if is_word(attribute, "position") {
                    match parse_rect(value) {
                        Some(r) => {
                            *position = r;
                            Ok(AttrEffect::Rebuild)
                        },
                        None => Err(ApplyError::BadValue),
                    }
                } else if is_word(attribute, "content") {
                    match parse_rect(value) {
                        Some(r) => {
                            *content = r;
                            Ok(AttrEffect::Rebuild)
                        },
                        None => Err(ApplyError::BadValue),
                    }
                } else if is_word(attribute, "scroll-position") {
                    match parse_point(value) {
                        Some(p) => Ok(AttrEffect::ScrollTo(p)),
                        None => Err(ApplyError::BadValue),
                    }
                } else if is_word(attribute, "on-wheel") {
                    match parse_callback(value) {
                        Some(c) => {
                            *on_wheel = c;
                            Ok(AttrEffect::Rebuild)
                        },
                        None => Err(ApplyError::BadValue),
                    }
                } else {
                    Ok(AttrEffect::Rebuild)
                }
            },
            NodeType::Text { text, origin, layout, color } => {
                if is_word(attribute, "text") {
                    match value.as_str() {
                        Some(t) => {
                            *text = t.clone();
                            *layout = None;
                            Ok(AttrEffect::Reshape)
                        },
                        None => Err(ApplyError::BadValue),
                    }
                } else if is_word(attribute, "origin") {
                    match parse_point(value) {
                        Some(p) => {
                            *origin = p;
                            *layout = None;
                            Ok(AttrEffect::Reshape)
                        },
                        None => Err(ApplyError::BadValue),
                    }
                } else if is_word(attribute, "color") {
                    match parse_color(value) {
                        Some(c) => {
                            *color = c;
                            Ok(AttrEffect::Rebuild)
                        },
                        None => Err(ApplyError::BadValue),
                    }
                } else {
                    Ok(AttrEffect::Rebuild)
                }
            },
        }
    }
}

} // verus!
