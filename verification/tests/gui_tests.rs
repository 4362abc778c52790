use cutekit::color::Color565;
use cutekit::geometry::Vector2;
use cutekit::gui::enums::{AlignDirection, Anchor, Layout};
use cutekit::gui::interactive::{update, InteractiveNode, NavigationDirection};
use cutekit::gui::margin::Margin;
use cutekit::gui::node::{ColorRectanglePrimitive, Container, Node, Primitive, TextPrimitive};
use cutekit::gui::render::{get_anchor_offset_pos, Menu};
use cutekit::renderer2d::draw_queue::DrawQueue;
use cutekit::renderer2d::elements::{Element, Font};

const RED: Color565 = Color565 { value: 0xF800 };
const GREEN: Color565 = Color565 { value: 0x07E0 };
const WHITE: Color565 = Color565 { value: 0xFFFF };

fn rect(w: u16, h: u16, color: Color565, margin: Margin) -> Node<'static> {
    Node::Primitive(Primitive::ColorRectangle(ColorRectanglePrimitive {
        size: Vector2 { x: w, y: h },
        color,
        layout_override: Layout::Default,
        margin,
        outline_thickness: None,
    }))
}

fn column(children: Vec<Node<'static>>) -> Container<'static> {
    Container { children, align: AlignDirection::Down, layout_override: Layout::Default, expand: false, margin: Margin::none() }
}

fn is_rect(e: &Element, x: isize, y: isize, w: u16, h: u16, c: Color565) -> bool {
    matches!(e, Element::ColorRectangle { pos, size, color }
        if pos.x == x && pos.y == y && size.x == w && size.y == h && *color == c)
}

#[test]
fn margin_constructors() {
    let m = Margin::none();
    assert_eq!(m, Margin { top: 0, bottom: 0, right: 0, left: 0 });
    let m = Margin::new(1, 2, 3, 4);
    assert_eq!((m.top, m.bottom, m.right, m.left), (1, 2, 3, 4));
}

#[test]
fn anchor_positions() {
    let n = Vector2 { x: 10, y: 10 };
    let off = Vector2 { x: 1, y: 2 };
    let pp = Vector2 { x: 0, y: 0 };
    let ps = Vector2 { x: 100, y: 50 };
    let p = get_anchor_offset_pos(n, Anchor::Center, off, pp, ps);
    assert_eq!((p.x, p.y), (46, 22));
    let p = get_anchor_offset_pos(n, Anchor::BottomRight, off, pp, ps);
    assert_eq!((p.x, p.y), (91, 42));
    let p = get_anchor_offset_pos(n, Anchor::TopLeft, off, Vector2 { x: 5, y: 6 }, ps);
    assert_eq!((p.x, p.y), (6, 8));
    let p = get_anchor_offset_pos(n, Anchor::Top, Vector2 { x: 0, y: 0 }, pp, Vector2 { x: 15, y: 50 });
    // (15 - 10) / 2 rounds toward zero
    assert_eq!((p.x, p.y), (2, 0));
}

#[test]
fn primitive_size_takes_forced_lengths() {
    let r = Primitive::ColorRectangle(ColorRectanglePrimitive {
        size: Vector2 { x: 10, y: 20 },
        color: RED,
        layout_override: Layout::Default,
        margin: Margin::none(),
        outline_thickness: None,
    });
    let s = r.get_size((Some(30), None));
    assert_eq!((s.x, s.y), (30, 20));
    let detached = Primitive::ColorRectangle(ColorRectanglePrimitive {
        size: Vector2 { x: 10, y: 20 },
        color: RED,
        layout_override: Layout::Relative(Anchor::Center, Vector2 { x: 0, y: 0 }),
        margin: Margin::none(),
        outline_thickness: None,
    });
    let s = detached.get_size((Some(30), Some(40)));
    assert_eq!((s.x, s.y), (10, 20));
}

#[test]
fn text_primitive_width_and_centering() {
    let font = Font { data: &[0; 8], font_image_width: 4, char_width: 2, char_height: 2, chars: "ab" };
    let t = TextPrimitive {
        text: "ab",
        font: &font,
        font_color: WHITE,
        background_color: None,
        layout_override: Layout::Default,
        margin: Margin::none(),
    };
    assert_eq!(t.width(), 4);
    let e = Primitive::Text(t).get_element(Vector2 { x: 0, y: 0 }, Some(320), Some(10));
    assert!(matches!(e, Element::Text { pos, .. } if pos.x == 158 && pos.y == 4));
}

#[test]
fn outline_primitive_gives_outline_element() {
    let p = Primitive::ColorRectangle(ColorRectanglePrimitive {
        size: Vector2 { x: 10, y: 20 },
        color: RED,
        layout_override: Layout::Default,
        margin: Margin::none(),
        outline_thickness: Some(2),
    });
    let e = p.get_element(Vector2 { x: 1, y: 1 }, Some(50), None);
    assert!(matches!(e, Element::ColorRectangleOutline { size, thickness: 2, .. } if size.x == 50 && size.y == 20));
}

#[test]
fn container_size_adds_children_and_margins() {
    let c = column(vec![rect(100, 20, RED, Margin::none()), rect(80, 20, GREEN, Margin::new(5, 0, 0, 0))]);
    let s = c.get_size((None, None));
    assert_eq!((s.x, s.y), (100, 45));
    let s = c.get_size((Some(50), Some(60)));
    assert_eq!((s.x, s.y), (50, 60));
}

#[test]
fn content_size_counts_side_margins_when_free() {
    let c = column(vec![rect(100, 20, RED, Margin::new(0, 3, 4, 6))]);
    let s = c.get_content_size((None, None));
    assert_eq!((s.x, s.y), (110, 23));
}

#[test]
fn expanding_children_share_the_free_space() {
    let inner = Container { children: vec![], align: AlignDirection::Down, layout_override: Layout::Default, expand: true, margin: Margin::none() };
    let inner2 = Container { children: vec![], align: AlignDirection::Down, layout_override: Layout::Default, expand: true, margin: Margin::none() };
    let c = column(vec![rect(100, 20, RED, Margin::none()), Node::Container(inner), Node::Container(inner2)]);
    let s = c.get_expand_remaining_space(Vector2 { x: 320, y: 240 }, (None, None));
    assert_eq!((s.x, s.y), (110, 110));
    let none = column(vec![rect(100, 20, RED, Margin::none())]);
    let s = none.get_expand_remaining_space(Vector2 { x: 320, y: 240 }, (None, None));
    assert_eq!((s.x, s.y), (0, 0));
}

#[test]
fn menu_renders_a_column() {
    let menu = Menu { base_node: column(vec![rect(100, 20, RED, Margin::none()), rect(100, 20, GREEN, Margin::none())]), default_hover_marker: false };
    let mut q: DrawQueue<'_, 10> = DrawQueue::new();
    assert!(menu.render(&mut q).is_ok());
    let e = q.get_elements();
    assert_eq!(e.len(), 2);
    assert!(is_rect(&e[0], 0, 0, 320, 20, RED));
    assert!(is_rect(&e[1], 0, 20, 320, 20, GREEN));
}

#[test]
fn menu_uses_the_larger_of_facing_margins() {
    let menu = Menu {
        base_node: column(vec![rect(100, 20, RED, Margin::new(0, 7, 0, 0)), rect(100, 20, GREEN, Margin::new(4, 0, 2, 3))]),
        default_hover_marker: false,
    };
    let mut q: DrawQueue<'_, 10> = DrawQueue::new();
    menu.render(&mut q).unwrap();
    let e = q.get_elements();
    assert!(is_rect(&e[0], 0, 0, 320, 20, RED));
    // margin 7 between them; side margins move it right and shrink the forced width
    assert!(is_rect(&e[1], 3, 27, 315, 20, GREEN));
}

#[test]
fn menu_renders_a_row_inside_a_column() {
    let row = Container {
        children: vec![rect(30, 10, GREEN, Margin::none()), rect(30, 10, WHITE, Margin::none())],
        align: AlignDirection::Right,
        layout_override: Layout::Default,
        expand: false,
        margin: Margin::none(),
    };
    let menu = Menu { base_node: column(vec![rect(100, 20, RED, Margin::none()), Node::Container(row)]), default_hover_marker: false };
    let mut q: DrawQueue<'_, 10> = DrawQueue::new();
    menu.render(&mut q).unwrap();
    let e = q.get_elements();
    assert_eq!(e.len(), 3);
    assert!(is_rect(&e[0], 0, 0, 320, 20, RED));
    assert!(is_rect(&e[1], 0, 20, 30, 10, GREEN));
    assert!(is_rect(&e[2], 30, 20, 30, 10, WHITE));
}

#[test]
fn menu_up_renders_children_backward_from_the_bottom() {
    let mut c = column(vec![rect(100, 20, RED, Margin::none()), rect(100, 30, GREEN, Margin::none())]);
    c.align = AlignDirection::Up;
    let menu = Menu { base_node: c, default_hover_marker: false };
    let mut q: DrawQueue<'_, 10> = DrawQueue::new();
    menu.render(&mut q).unwrap();
    let e = q.get_elements();
    // content is 50 high, so the flow starts at 240 - 50 = 190, last child first
    assert!(is_rect(&e[0], 0, 190, 320, 30, GREEN));
    assert!(is_rect(&e[1], 0, 220, 320, 20, RED));
}

#[test]
fn menu_detached_child_sticks_to_its_anchor() {
    let detached = Node::Primitive(Primitive::ColorRectangle(ColorRectanglePrimitive {
        size: Vector2 { x: 20, y: 10 },
        color: WHITE,
        layout_override: Layout::Relative(Anchor::BottomRight, Vector2 { x: -1, y: -1 }),
        margin: Margin::none(),
        outline_thickness: None,
    }));
    let menu = Menu { base_node: column(vec![detached, rect(100, 20, RED, Margin::none())]), default_hover_marker: false };
    let mut q: DrawQueue<'_, 10> = DrawQueue::new();
    menu.render(&mut q).unwrap();
    let e = q.get_elements();
    assert!(is_rect(&e[0], 299, 229, 20, 10, WHITE));
    // the detached child does not move the flow
    assert!(is_rect(&e[1], 0, 0, 320, 20, RED));
}

#[test]
fn menu_reports_a_full_queue() {
    let menu = Menu { base_node: column(vec![rect(100, 20, RED, Margin::none()), rect(100, 20, GREEN, Margin::none())]), default_hover_marker: false };
    let mut q: DrawQueue<'_, 1> = DrawQueue::new();
    assert!(menu.render(&mut q).is_err());
    let e = q.get_elements();
    assert_eq!(e.len(), 1);
    assert!(is_rect(&e[0], 0, 0, 320, 20, RED));
}

#[test]
fn menu_detached_container_sticks_to_its_anchor() {
    let detached = Container {
        children: vec![rect(20, 10, WHITE, Margin::none())],
        align: AlignDirection::Down,
        layout_override: Layout::Relative(Anchor::BottomRight, Vector2 { x: 0, y: 0 }),
        expand: false,
        margin: Margin::none(),
    };
    let menu = Menu { base_node: column(vec![rect(100, 20, RED, Margin::none()), Node::Container(detached)]), default_hover_marker: false };
    let mut q: DrawQueue<'_, 10> = DrawQueue::new();
    menu.render(&mut q).unwrap();
    let e = q.get_elements();
    assert_eq!(e.len(), 2);
    assert!(is_rect(&e[0], 0, 0, 320, 20, RED));
    assert!(is_rect(&e[1], 300, 230, 20, 10, WHITE));
}

struct Button {
    id: usize,
    pressed: Vec<u8>,
}

impl InteractiveNode for Button {
    fn handle_key_down(&mut self, key: u8) -> Option<usize> {
        self.pressed.push(key);
        Some(self.id)
    }
    fn handle_key_up(&mut self, _key: u8) -> Option<usize> {
        None
    }
    fn get_id(&self) -> usize {
        self.id
    }
    fn get_is_selected(&self) -> bool {
        true
    }
    fn set_is_selected(&mut self, _state: bool) {}
}

#[test]
fn update_hands_the_key_to_the_selected_node() {
    let mut b = Button { id: 4, pressed: vec![] };
    assert_eq!(update(Some(&mut b), Some(17)), Some(4));
    assert_eq!(b.pressed, vec![17]);
    assert_eq!(update(Some(&mut b), None), None);
    assert_eq!(update::<Button>(None, Some(3)), None);
    assert_eq!(b.pressed, vec![17]);
    assert!(!b.handle_navigation(NavigationDirection::Up));
}

#[test]
fn menu_keeps_no_event() {
    let menu = Menu { base_node: column(vec![]), default_hover_marker: false };
    assert_eq!(menu.get_last_event(), None);
}
