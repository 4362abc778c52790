//! Placing the nodes of a layout tree and queueing the elements they draw.
use vstd::prelude::*;
use crate::constants::{SCREEN_WIDTH, SCREEN_HEIGHT};
use crate::geometry::Vector2;
use crate::gui::enums::{AlignDirection, Anchor, Layout, is_vertical};
use crate::gui::layout::{
    child_force_exec, fits, max_of, container_size, container_size_ok, content_size, content_size_ok, expand_remaining_space,
    expand_remaining_space_ok, own_force, child_force,
};
use crate::gui::margin::Margin;
use crate::gui::node::{Container, Node, Primitive, opt_or, prim_layout, prim_margin, prim_ok, prim_size, text_width};
use crate::renderer2d::draw_queue::{DrawQueue, queued, lemma_queued_append};
use crate::renderer2d::elements::Element;
use crate::renderer2d::nine_parts_rectangle::trunc_div;

verus! {

/// The size of a node on its own (no constraint).
pub open spec fn free_size(n: Node) -> (int, int) {
    match n {
        Node::Primitive(p) => prim_size(p, (None, None)),
        Node::Container(c) => container_size(c, (None, None)),
    }
}

/// The size of a node on its own can be computed.
pub open spec fn free_size_ok(n: Node) -> bool {
    match n {
        Node::Primitive(p) => prim_ok(p),
        Node::Container(c) => container_size_ok(c, (None, None)),
    }
}

/// Where a node of size `ns` sticks to `anchor` of its parent at `ppos` of size `ps`,
/// moved by `off`. Halves round toward zero.
pub open spec fn anchor_pos(anchor: Anchor, ns: (int, int), off: (int, int), ppos: (int, int), ps: (int, int)) -> (int, int) {
    let p = match anchor {
        Anchor::Center => (ppos.0 + trunc_div(ps.0 - ns.0, 2), ppos.1 + trunc_div(ps.1 - ns.1, 2)),
        Anchor::Top => (ppos.0 + trunc_div(ps.0 - ns.0, 2), ppos.1),
        Anchor::Bottom => (ppos.0 + trunc_div(ps.0 - ns.0, 2), ppos.1 + (ps.1 - ns.1)),
        Anchor::Right => (ppos.0 + (ps.0 - ns.0), ppos.1 + trunc_div(ps.1 - ns.1, 2)),
        Anchor::Left => (ppos.0, ppos.1 + trunc_div(ps.1 - ns.1, 2)),
        Anchor::TopLeft => ppos,
        Anchor::TopRight => (ppos.0 + (ps.0 - ns.0), ppos.1),
        Anchor::BottomLeft => (ppos.0, ppos.1 + (ps.1 - ns.1)),
        Anchor::BottomRight => (ppos.0 + ps.0 - ns.0, ppos.1 + ps.1 - ns.1),
    };
    (p.0 + off.0, p.1 + off.1)
}

/// Every value computed by [`anchor_pos`] fits in an `isize`.
pub open spec fn anchor_pos_ok(anchor: Anchor, ns: (int, int), off: (int, int), ppos: (int, int), ps: (int, int)) -> bool {
    let p = anchor_pos(anchor, ns, (0, 0), ppos, ps);
    &&& fits(ps.0 - ns.0) && fits(ps.1 - ns.1)
    &&& fits(p.0) && fits(p.1)
    &&& anchor is BottomRight ==> fits(ppos.0 + ps.0) && fits(ppos.1 + ps.1)
    &&& fits(p.0 + off.0) && fits(p.1 + off.1)
}

/// Where an anchored node lands: a left anchor puts its left edge on the parent's left
/// edge, a right anchor its right edge on the parent's right edge, a top anchor its top
/// edge on the parent's top edge, a bottom anchor its bottom edge on the parent's bottom
/// edge, and on an axis the anchor does not name the node is centred (the free space
/// halved, rounding toward zero); the offset then moves it.
pub proof fn lemma_anchor_edges(anchor: Anchor, ns: (int, int), off: (int, int), ppos: (int, int), ps: (int, int))
    ensures
        ({
            let p = anchor_pos(anchor, ns, off, ppos, ps);
            &&& (anchor is Left || anchor is TopLeft || anchor is BottomLeft) ==> p.0 == ppos.0 + off.0
            &&& (anchor is Right || anchor is TopRight || anchor is BottomRight) ==> p.0 + ns.0 == ppos.0 + ps.0 + off.0
            &&& (anchor is Center || anchor is Top || anchor is Bottom)
                ==> p.0 == ppos.0 + trunc_div(ps.0 - ns.0, 2) + off.0
            &&& (anchor is Top || anchor is TopLeft || anchor is TopRight) ==> p.1 == ppos.1 + off.1
            &&& (anchor is Bottom || anchor is BottomLeft || anchor is BottomRight) ==> p.1 + ns.1 == ppos.1 + ps.1 + off.1
            &&& (anchor is Center || anchor is Left || anchor is Right)
                ==> p.1 == ppos.1 + trunc_div(ps.1 - ns.1, 2) + off.1
        }),
{
}

/// A detached node no larger than its parent, anchored without offset, stays inside
/// its parent; the top-left anchor is the parent's corner and the bottom-right one puts
/// the node's far corner on the parent's.
pub proof fn lemma_anchor_inside(anchor: Anchor, ns: (int, int), ppos: (int, int), ps: (int, int))
    requires
        0 <= ns.0 <= ps.0,
        0 <= ns.1 <= ps.1,
    ensures
        ppos.0 <= anchor_pos(anchor, ns, (0, 0), ppos, ps).0,
        ppos.1 <= anchor_pos(anchor, ns, (0, 0), ppos, ps).1,
        anchor_pos(anchor, ns, (0, 0), ppos, ps).0 + ns.0 <= ppos.0 + ps.0,
        anchor_pos(anchor, ns, (0, 0), ppos, ps).1 + ns.1 <= ppos.1 + ps.1,
        anchor_pos(Anchor::TopLeft, ns, (0, 0), ppos, ps) == ppos,
        anchor_pos(Anchor::BottomRight, ns, (0, 0), ppos, ps) == (ppos.0 + ps.0 - ns.0, ppos.1 + ps.1 - ns.1),
{
    assert(0 <= trunc_div(ps.0 - ns.0, 2) <= ps.0 - ns.0);
    assert(0 <= trunc_div(ps.1 - ns.1, 2) <= ps.1 - ns.1);
}

/// Where a detached node sticks to its parent (see [`anchor_pos`]).
pub fn get_anchor_offset_pos(
    node_size: Vector2<isize>, anchor: Anchor, offset: Vector2<isize>, parent_container_pos: Vector2<isize>,
    parent_container_size: Vector2<isize>,
) -> (p: Vector2<isize>)
    requires
        anchor_pos_ok(anchor, (node_size.x as int, node_size.y as int), (offset.x as int, offset.y as int),
            (parent_container_pos.x as int, parent_container_pos.y as int),
            (parent_container_size.x as int, parent_container_size.y as int)),
    ensures
        (p.x as int, p.y as int) == anchor_pos(anchor, (node_size.x as int, node_size.y as int),
            (offset.x as int, offset.y as int), (parent_container_pos.x as int, parent_container_pos.y as int),
            (parent_container_size.x as int, parent_container_size.y as int)),
{
    let pp = parent_container_pos;
    let ps = parent_container_size;
    let ns = node_size;
    let p = match anchor {
        Anchor::Center => Vector2 { x: pp.x + (ps.x - ns.x) / 2, y: pp.y + (ps.y - ns.y) / 2 },
        Anchor::Top => Vector2 { x: pp.x + (ps.x - ns.x) / 2, y: pp.y },
        Anchor::Bottom => Vector2 { x: pp.x + (ps.x - ns.x) / 2, y: pp.y + (ps.y - ns.y) },
        Anchor::Right => Vector2 { x: pp.x + (ps.x - ns.x), y: pp.y + (ps.y - ns.y) / 2 },
        Anchor::Left => Vector2 { x: pp.x, y: pp.y + (ps.y - ns.y) / 2 },
        Anchor::TopLeft => pp,
        Anchor::TopRight => Vector2 { x: pp.x + (ps.x - ns.x), y: pp.y },
        Anchor::BottomLeft => Vector2 { x: pp.x, y: pp.y + (ps.y - ns.y) },
        Anchor::BottomRight => Vector2 { x: pp.x + ps.x - ns.x, y: pp.y + ps.y - ns.y },
    };
    Vector2 { x: p.x + offset.x, y: p.y + offset.y }
}

/// A forced length, cut to a `u16` as a size field holds it.
pub open spec fn forced_u16(o: Option<isize>, d: u16) -> u16 {
    match o {
        Some(v) => v as u16,
        None => d,
    }
}

/// A size, with the forced lengths unless the layout is detached.
pub open spec fn element_size(layout: Layout, size: Vector2<u16>, width: Option<isize>, height: Option<isize>) -> Vector2<u16> {
    if layout is Relative { size } else { Vector2 { x: forced_u16(width, size.x), y: forced_u16(height, size.y) } }
}

/// The element a primitive draws at `pos` in a space of the given forced lengths. A text
/// is centred in the forced lengths (halves rounding toward zero); the other primitives
/// take them as their size (cut to 16 bits). A detached primitive ignores them.
pub open spec fn prim_element<'a>(p: Primitive<'a>, pos: Vector2<isize>, width: Option<isize>, height: Option<isize>) -> Element<'a> {
    match p {
        Primitive::ColorRectangle(r) => {
            let size = element_size(r.layout_override, r.size, width, height);
            match r.outline_thickness {
                Some(t) => Element::ColorRectangleOutline { pos, size, color: r.color, thickness: t },
                None => Element::ColorRectangle { pos, size, color: r.color },
            }
        },
        Primitive::NinePartsRectangle(r) => Element::NinePartsRectangle {
            parts: r.parts,
            pos,
            size: element_size(r.layout_override, r.size, width, height),
            scaling_mode: r.scaling_mode,
        },
        Primitive::Text(t) => {
            let x = if !(t.layout_override is Relative) && width is Some {
                pos.x + trunc_div(width->0 - text_width(t), 2)
            } else {
                pos.x as int
            };
            let y = if !(t.layout_override is Relative) && height is Some {
                pos.y + trunc_div(height->0 - t.font.char_height, 2)
            } else {
                pos.y as int
            };
            Element::Text {
                pos: Vector2 { x: x as isize, y: y as isize },
                text: t.text,
                font: t.font,
                font_color: t.font_color,
                background_color: t.background_color,
            }
        },
        Primitive::TransparentScaledSprite(s) => Element::TransparentScaledSprite {
            pos,
            size: element_size(s.layout_override, s.size, width, height),
            texture: s.texture,
            scale_mode: s.scale_mode,
        },
    }
}

/// Every value computed by [`prim_element`] fits in its type.
pub open spec fn prim_element_ok(p: Primitive, pos: Vector2<isize>, width: Option<isize>, height: Option<isize>) -> bool {
    match p {
        Primitive::Text(t) => !(t.layout_override is Relative) ==> {
            &&& width is Some ==> {
                &&& prim_ok(p)
                &&& fits(width->0 - text_width(t))
                &&& fits(pos.x + trunc_div(width->0 - text_width(t), 2))
            }
            &&& height is Some ==> {
                &&& fits(height->0 - t.font.char_height)
                &&& fits(pos.y + trunc_div(height->0 - t.font.char_height, 2))
            }
        },
        _ => true,
    }
}

impl<'a> Primitive<'a> {
    /// The element the primitive draws at `pos` (see [`prim_element`]).
    pub fn get_element(&self, pos: Vector2<isize>, width: Option<isize>, height: Option<isize>) -> (e: Element<'a>)
        requires
            prim_element_ok(*self, pos, width, height),
        ensures
            e == prim_element(*self, pos, width, height),
    {
        match self {
            Primitive::ColorRectangle(r) => {
                let mut size = r.size;
                if let Layout::Relative(..) = r.layout_override {
                } else {
                    if let Some(w) = width {
                        #[verifier::truncate]
                        let wu = w as u16;
                        size.x = wu;
                    }
                    if let Some(h) = height {
                        #[verifier::truncate]
                        let hu = h as u16;
                        size.y = hu;
                    }
                }
                match r.outline_thickness {
                    Some(t) => Element::ColorRectangleOutline { pos, size, color: r.color, thickness: t },
                    None => Element::ColorRectangle { pos, size, color: r.color },
                }
            },
            Primitive::NinePartsRectangle(r) => {
                let mut size = r.size;
                if let Layout::Relative(..) = r.layout_override {
                } else {
                    if let Some(w) = width {
                        #[verifier::truncate]
                        let wu = w as u16;
                        size.x = wu;
                    }
                    if let Some(h) = height {
                        #[verifier::truncate]
                        let hu = h as u16;
                        size.y = hu;
                    }
                }
                Element::NinePartsRectangle { parts: r.parts, pos, size, scaling_mode: r.scaling_mode }
            },
            Primitive::Text(t) => {
                let mut pos = pos;
                if let Layout::Relative(..) = t.layout_override {
                } else {
                    if let Some(w) = width {
                        let actual_length = t.width();
                        pos.x = pos.x + (w - actual_length) / 2;
                    }
                    if let Some(h) = height {
                        pos.y = pos.y + (h - t.font.char_height as isize) / 2;
                    }
                }
                Element::Text {
                    pos,
                    text: t.text,
                    font: t.font,
                    font_color: t.font_color,
                    background_color: t.background_color,
                }
            },
            Primitive::TransparentScaledSprite(s) => {
                let mut size = s.size;
                if let Layout::Relative(..) = s.layout_override {
                } else {
                    if let Some(w) = width {
                        #[verifier::truncate]
                        let wu = w as u16;
                        size.x = wu;
                    }
                    if let Some(h) = height {
                        #[verifier::truncate]
                        let hu = h as u16;
                        size.y = hu;
                    }
                }
                Element::TransparentScaledSprite { pos, size, texture: s.texture, scale_mode: s.scale_mode }
            },
        }
    }
}

/// A point as a vector of `isize`.
pub open spec fn vec_of(p: (int, int)) -> Vector2<isize> {
    Vector2 { x: p.0 as isize, y: p.1 as isize }
}

/// A forced length after taking `d` off it, if there is one.
pub open spec fn shrink(o: Option<isize>, d: int) -> Option<isize> {
    match o {
        Some(v) => Some((v - d) as isize),
        None => None,
    }
}

/// Where a child in the flow is placed, the offset after its leading margin, and the
/// constraint it gets: along the flow the larger of the two facing margins separates it
/// from the previous child; across the flow its side margin moves it and its side margins
/// are taken off the forced length.
pub open spec fn flow_place(
    v: bool, m: Margin, offset: (int, int), last: int, cf: (Option<isize>, Option<isize>),
) -> ((int, int), (int, int), (Option<isize>, Option<isize>)) {
    if v {
        let am = max_of(m.top as int, last);
        ((offset.0 + m.left, offset.1 + am), (offset.0, offset.1 + am), (shrink(cf.0, m.left + m.right), cf.1))
    } else {
        let am = max_of(m.left as int, last);
        ((offset.0 + am, offset.1 + m.top), (offset.0 + am, offset.1), (cf.0, shrink(cf.1, m.top + m.bottom)))
    }
}

/// Every value computed by [`flow_place`] fits in an `isize`.
pub open spec fn flow_place_ok(v: bool, m: Margin, offset: (int, int), last: int, cf: (Option<isize>, Option<isize>)) -> bool {
    if v {
        let am = max_of(m.top as int, last);
        &&& fits(offset.1 + am) && fits(offset.0 + m.left)
        &&& cf.0 is Some ==> fits(m.left + m.right) && fits(cf.0->0 - (m.left + m.right))
    } else {
        let am = max_of(m.left as int, last);
        &&& fits(offset.0 + am) && fits(offset.1 + m.top)
        &&& cf.1 is Some ==> fits(m.top + m.bottom) && fits(cf.1->0 - (m.top + m.bottom))
    }
}

/// The offset after a child of size `s` along the flow.
pub open spec fn advance(v: bool, offset: (int, int), s: (int, int)) -> (int, int) {
    if v { (offset.0, offset.1 + s.1) } else { (offset.0 + s.0, offset.1) }
}

/// The trailing margin a child leaves along the flow.
pub open spec fn trailing(v: bool, m: Margin) -> int {
    if v { m.bottom as int } else { m.right as int }
}

/// The constraint a container child is rendered with: none when detached, the expanded
/// space for an expanding one, else its content's length across its own flow.
pub open spec fn container_target(c: Container, cfe: (Option<isize>, Option<isize>)) -> (Option<isize>, Option<isize>) {
    if c.layout_override is Relative {
        (None, None)
    } else if c.expand {
        cfe
    } else {
        let fit = content_size(c, (None, None));
        if is_vertical(c.align) { (Some(fit.0 as isize), None) } else { (None, Some(fit.1 as isize)) }
    }
}

/// Where a container child is placed, the offset after its leading margin, and the
/// constraint it gets: in the flow as [`flow_place`] says, detached at its anchor on the
/// parent (by its own size), and transparent at the offset.
pub open spec fn container_place(
    v: bool, c: Container, offset: (int, int), last: int, cf: (Option<isize>, Option<isize>), ppos: (int, int),
    ps: (int, int),
) -> ((int, int), (int, int), (Option<isize>, Option<isize>)) {
    match c.layout_override {
        Layout::Relative(a, aoff) =>
            (anchor_pos(a, container_size(c, (None, None)), (aoff.x as int, aoff.y as int), ppos, ps), offset, cf),
        Layout::Default => flow_place(v, c.margin, offset, last, cf),
        Layout::Transparent => (offset, offset, cf),
    }
}

/// Placing one child of a container flowing vertically when `v`: the elements it draws,
/// the offset after it and the trailing margin after it. `cf` is the constraint for
/// children, `cfe` the one for expanding children, `ppos` and `ps` the parent's position
/// and size (for detached children). A detached child sticks to its anchor on the
/// parent. Only children in the flow move the offset.
pub open spec fn render_child<'a>(
    v: bool, n: Node<'a>, offset: (int, int), cf: (Option<isize>, Option<isize>), cfe: (Option<isize>, Option<isize>),
    ppos: (int, int), ps: (int, int), last: int,
) -> (Seq<Element<'a>>, (int, int), int)
    decreases n, 0int, 0int,
{
    match n {
        Node::Primitive(p) => {
            let m = prim_margin(p);
            let pl = match prim_layout(p) {
                Layout::Relative(a, aoff) => (anchor_pos(a, prim_size(p, (None, None)), (aoff.x as int, aoff.y as int), ppos, ps), offset, cf),
                Layout::Default => flow_place(v, m, offset, last, cf),
                Layout::Transparent => (offset, offset, cf),
            };
            let e = prim_element(p, vec_of(pl.0), pl.2.0, pl.2.1);
            let s = prim_size(p, pl.2);
            let rs = (opt_or(pl.2.0, s.0), opt_or(pl.2.1, s.1));
            if prim_layout(p) is Default {
                (seq![e], advance(v, pl.1, rs), trailing(v, m))
            } else {
                (seq![e], pl.1, last)
            }
        },
        Node::Container(c) => {
            let pl = container_place(v, c, offset, last, cf, ppos, ps);
            let r = render_container(c, pl.0, container_target(c, cfe));
            if c.layout_override is Default {
                (r.0, advance(v, pl.1, r.1), trailing(v, c.margin))
            } else {
                (r.0, pl.1, last)
            }
        },
    }
}

/// Index of the `j`-th child visited: children are visited backward for `Up` and `Left`.
pub open spec fn visit_index(c: Container, j: int) -> int {
    if c.align is Up || c.align is Left { c.children@.len() - 1 - j } else { j }
}

/// Where a container starts laying out its children: at its offset, moved so that the
/// content ends at the far side for `Up` and `Left`.
pub open spec fn flow_start(align: AlignDirection, offset: (int, int), cs: (int, int), ds: (int, int)) -> (int, int) {
    match align {
        AlignDirection::Up => (offset.0, offset.1 + cs.1 - ds.1),
        AlignDirection::Left => (offset.0 + cs.0 - ds.0, offset.1),
        _ => offset,
    }
}

/// The parameters a container lays its children out with: the constraint for children,
/// for expanding children, the container's size and its content's size.
pub open spec fn container_frame(c: Container, f: (Option<isize>, Option<isize>))
    -> ((Option<isize>, Option<isize>), (Option<isize>, Option<isize>), (int, int), (int, int))
{
    let m = c.margin;
    let ds = content_size(c, f);
    let cs = (opt_or(f.0, ds.0 - (m.left + m.right)), opt_or(f.1, ds.1 - (m.top + m.bottom)));
    let es = expand_remaining_space(c, (opt_or(f.0, 0), opt_or(f.1, 0)), f);
    let cfe = if is_vertical(c.align) { (f.0, Some(es.1 as isize)) } else { (Some(es.0 as isize), f.1) };
    (child_force(c.align, f), cfe, cs, ds)
}

/// A forced length as an `Option<int>`.
pub open spec fn opt_int(o: Option<isize>) -> Option<int> {
    match o {
        Some(v) => Some(v as int),
        None => None,
    }
}

/// The state after visiting `j` children of `c`: the elements drawn, the offset, the
/// forced lengths left (each forced length becomes what remains of the container's
/// size past the offset) and the trailing margin.
pub open spec fn render_fold<'a>(
    c: Container<'a>, f: (Option<isize>, Option<isize>), cpos: (int, int), j: int,
) -> (Seq<Element<'a>>, (int, int), (Option<int>, Option<int>), int)
    decreases c, 1int, j,
{
    let fr = container_frame(c, f);
    if j <= 0 || j > c.children@.len() {
        (Seq::empty(), flow_start(c.align, cpos, fr.2, fr.3), (opt_int(f.0), opt_int(f.1)), 0)
    } else {
        let acc = render_fold(c, f, cpos, j - 1);
        let r = render_child(is_vertical(c.align), c.children@[visit_index(c, j - 1)], acc.1, fr.0, fr.1, cpos, fr.2, acc.3);
        let fw = match acc.2.0 { Some(_) => Some(fr.2.0 - (r.1.0 - cpos.0)), None => None };
        let fh = match acc.2.1 { Some(_) => Some(fr.2.1 - (r.1.1 - cpos.1)), None => None };
        (acc.0 + r.0, r.1, (fw, fh), r.2)
    }
}

/// Rendering a container at `offset` under the constraint `force`: the elements drawn
/// by its children in visiting order, and the size it takes: on each axis what remains
/// forced, else how far the offset moved.
pub open spec fn render_container<'a>(c: Container<'a>, offset: (int, int), force: (Option<isize>, Option<isize>)) -> (Seq<Element<'a>>, (int, int))
    decreases c, 2int, 0int,
{
    let f = own_force(c, force);
    let st = render_fold(c, f, offset, c.children@.len() as int);
    let w = match st.2.0 { Some(w) => w, None => st.1.0 - offset.0 };
    let h = match st.2.1 { Some(h) => h, None => st.1.1 - offset.1 };
    (st.0, (w, h))
}

/// Every value computed for [`render_child`] fits in its type.
pub open spec fn render_child_ok<'a>(
    v: bool, n: Node<'a>, offset: (int, int), cf: (Option<isize>, Option<isize>), cfe: (Option<isize>, Option<isize>),
    ppos: (int, int), ps: (int, int), last: int,
) -> bool
    decreases n, 0int, 0int,
{
    match n {
        Node::Primitive(p) => {
            let m = prim_margin(p);
            let pl = match prim_layout(p) {
                Layout::Relative(a, aoff) => (anchor_pos(a, prim_size(p, (None, None)), (aoff.x as int, aoff.y as int), ppos, ps), offset, cf),
                Layout::Default => flow_place(v, m, offset, last, cf),
                Layout::Transparent => (offset, offset, cf),
            };
            let s = prim_size(p, pl.2);
            let rs = (opt_or(pl.2.0, s.0), opt_or(pl.2.1, s.1));
            &&& prim_ok(p)
            &&& match prim_layout(p) {
                Layout::Relative(a, aoff) => anchor_pos_ok(a, prim_size(p, (None, None)), (aoff.x as int, aoff.y as int), ppos, ps),
                Layout::Default => flow_place_ok(v, m, offset, last, cf),
                Layout::Transparent => true,
            }
            &&& prim_element_ok(p, vec_of(pl.0), pl.2.0, pl.2.1)
            &&& prim_layout(p) is Default ==> fits(advance(v, pl.1, rs).0) && fits(advance(v, pl.1, rs).1)
        },
        Node::Container(c) => {
            let pl = container_place(v, c, offset, last, cf, ppos, ps);
            let r = render_container(c, pl.0, container_target(c, cfe));
            &&& match c.layout_override {
                Layout::Relative(a, aoff) => container_size_ok(c, (None, None))
                    && anchor_pos_ok(a, container_size(c, (None, None)), (aoff.x as int, aoff.y as int), ppos, ps),
                Layout::Default => flow_place_ok(v, c.margin, offset, last, cf),
                Layout::Transparent => true,
            }
            &&& !(c.layout_override is Relative) && !c.expand ==> content_size_ok(c, (None, None))
            &&& render_container_ok(c, pl.0, container_target(c, cfe))
            &&& c.layout_override is Default ==> fits(advance(v, pl.1, r.1).0) && fits(advance(v, pl.1, r.1).1)
        },
    }
}

/// Every value computed for [`render_fold`] over the first `j` children fits in an `isize`.
pub open spec fn render_fold_ok<'a>(c: Container<'a>, f: (Option<isize>, Option<isize>), cpos: (int, int), j: int) -> bool
    decreases c, 1int, j,
{
    let fr = container_frame(c, f);
    if j <= 0 || j > c.children@.len() {
        true
    } else {
        let acc = render_fold(c, f, cpos, j - 1);
        let r = render_child(is_vertical(c.align), c.children@[visit_index(c, j - 1)], acc.1, fr.0, fr.1, cpos, fr.2, acc.3);
        &&& render_fold_ok(c, f, cpos, j - 1)
        &&& render_child_ok(is_vertical(c.align), c.children@[visit_index(c, j - 1)], acc.1, fr.0, fr.1, cpos, fr.2, acc.3)
        &&& acc.2.0 is Some ==> fits(r.1.0 - cpos.0) && fits(fr.2.0 - (r.1.0 - cpos.0))
        &&& acc.2.1 is Some ==> fits(r.1.1 - cpos.1) && fits(fr.2.1 - (r.1.1 - cpos.1))
    }
}

/// Every value computed for [`render_container`] fits in an `isize`.
pub open spec fn render_container_ok<'a>(c: Container<'a>, offset: (int, int), force: (Option<isize>, Option<isize>)) -> bool
    decreases c, 2int, 0int,
{
    let f = own_force(c, force);
    let m = c.margin;
    let fr = container_frame(c, f);
    let ds = fr.3;
    let st = render_fold(c, f, offset, c.children@.len() as int);
    &&& content_size_ok(c, f)
    &&& fits(m.left + m.right) && fits(m.top + m.bottom)
    &&& fits(ds.0 - (m.left + m.right)) && fits(ds.1 - (m.top + m.bottom))
    &&& expand_remaining_space_ok(c, (opt_or(f.0, 0), opt_or(f.1, 0)), f)
    &&& c.align is Up ==> fits(offset.1 + fr.2.1) && fits(offset.1 + fr.2.1 - ds.1)
    &&& c.align is Left ==> fits(offset.0 + fr.2.0) && fits(offset.0 + fr.2.0 - ds.0)
    &&& render_fold_ok(c, f, offset, c.children@.len() as int)
    &&& st.2.0 is None ==> fits(st.1.0 - offset.0)
    &&& st.2.1 is None ==> fits(st.1.1 - offset.1)
}

/// The elements drawn over `j` children are drawn again, first, over `k >= j` children.
pub proof fn lemma_render_fold_prefix<'a>(c: Container<'a>, f: (Option<isize>, Option<isize>), cpos: (int, int), j: int, k: int)
    requires
        0 <= j <= k <= c.children@.len(),
    ensures
        render_fold(c, f, cpos, j).0.len() <= render_fold(c, f, cpos, k).0.len(),
        render_fold(c, f, cpos, k).0 == render_fold(c, f, cpos, j).0 + render_fold(c, f, cpos, k).0.subrange(
            render_fold(c, f, cpos, j).0.len() as int, render_fold(c, f, cpos, k).0.len() as int),
    decreases k - j,
{
    if j < k {
        lemma_render_fold_prefix(c, f, cpos, j, k - 1);
        lemma_render_fold_step(c, f, cpos, k - 1);
        let a = render_fold(c, f, cpos, j).0;
        let b = render_fold(c, f, cpos, k - 1).0;
        let d = render_fold(c, f, cpos, k).0;
        assert(d == b + (d.subrange(b.len() as int, d.len() as int)));
        assert(d =~= a + d.subrange(a.len() as int, d.len() as int));
    } else {
        let a = render_fold(c, f, cpos, j).0;
        assert(a =~= a + a.subrange(a.len() as int, a.len() as int));
    }
}

/// The fold's checks over `k` children cover its first `j` children.
pub proof fn lemma_render_fold_ok_prefix<'a>(c: Container<'a>, f: (Option<isize>, Option<isize>), cpos: (int, int), j: int, k: int)
    requires
        0 <= j <= k <= c.children@.len(),
        render_fold_ok(c, f, cpos, k),
    ensures
        render_fold_ok(c, f, cpos, j),
    decreases k - j,
{
    if j < k {
        lemma_render_fold_step(c, f, cpos, k - 1);
        lemma_render_fold_ok_prefix(c, f, cpos, j, k - 1);
    }
}

/// What [`render_container_ok`] asks of the fold over all children.
proof fn lemma_render_container_ok_fold<'a>(c: Container<'a>, offset: (int, int), force: (Option<isize>, Option<isize>))
    requires
        render_container_ok(c, offset, force),
    ensures
        render_fold_ok(c, own_force(c, force), offset, c.children@.len() as int),
{
}

/// Before any child: nothing drawn, the offset at the start of the flow, the forced
/// lengths as given and no trailing margin.
proof fn lemma_render_fold_base<'a>(c: Container<'a>, f: (Option<isize>, Option<isize>), cpos: (int, int))
    ensures
        render_fold(c, f, cpos, 0) == (Seq::<Element<'a>>::empty(),
            flow_start(c.align, cpos, container_frame(c, f).2, container_frame(c, f).3), (opt_int(f.0), opt_int(f.1)), 0int),
        render_fold_ok(c, f, cpos, 0),
{
}

/// One more child: what [`render_fold`] and [`render_fold_ok`] add for it.
proof fn lemma_render_fold_step<'a>(c: Container<'a>, f: (Option<isize>, Option<isize>), cpos: (int, int), j: int)
    requires
        0 <= j < c.children@.len(),
    ensures
        ({
            let fr = container_frame(c, f);
            let acc = render_fold(c, f, cpos, j);
            let r = render_child(is_vertical(c.align), c.children@[visit_index(c, j)], acc.1, fr.0, fr.1, cpos, fr.2, acc.3);
            let fw = match acc.2.0 { Some(_) => Some(fr.2.0 - (r.1.0 - cpos.0)), None => None };
            let fh = match acc.2.1 { Some(_) => Some(fr.2.1 - (r.1.1 - cpos.1)), None => None };
            &&& render_fold(c, f, cpos, j + 1) == (acc.0 + r.0, r.1, (fw, fh), r.2)
            &&& render_fold_ok(c, f, cpos, j + 1) == {
                &&& render_fold_ok(c, f, cpos, j)
                &&& render_child_ok(is_vertical(c.align), c.children@[visit_index(c, j)], acc.1, fr.0, fr.1, cpos, fr.2, acc.3)
                &&& acc.2.0 is Some ==> fits(r.1.0 - cpos.0) && fits(fr.2.0 - (r.1.0 - cpos.0))
                &&& acc.2.1 is Some ==> fits(r.1.1 - cpos.1) && fits(fr.2.1 - (r.1.1 - cpos.1))
            }
        }),
{
}

/// A child outside the flow (detached or transparent) does not move the flow: the offset
/// and the trailing margin after it are those before it. A detached container ignores the
/// lengths forced on it.
pub proof fn lemma_outside_flow_keeps_offset<'a>(
    v: bool, n: Node<'a>, offset: (int, int), cf: (Option<isize>, Option<isize>), cfe: (Option<isize>, Option<isize>),
    ppos: (int, int), ps: (int, int), last: int, c: Container<'a>, force: (Option<isize>, Option<isize>),
)
    ensures
        !(match n { Node::Primitive(p) => prim_layout(p) is Default, Node::Container(c) => c.layout_override is Default })
            ==> render_child(v, n, offset, cf, cfe, ppos, ps, last).1 == offset
                && render_child(v, n, offset, cf, cfe, ppos, ps, last).2 == last,
        c.layout_override is Relative ==> render_container(c, offset, force) == render_container(c, offset, (None, None)),
{
}

/// A menu: a tree of nodes laid out on the whole screen.
pub struct Menu<'a> {
    pub base_node: Container<'a>,
    pub default_hover_marker: bool,
}

impl<'a> Menu<'a> {
    /// The last event emitted by the hovered node since the last update: the menu keeps
    /// no event, so there is none.
    pub fn get_last_event(&self) -> (r: Option<(usize, usize)>)
        ensures
            r is None,
    {
        None
    }

    /// Queues the element of a primitive at `offset` and returns the size it takes: on
    /// each axis the forced length if any, else its own.
    fn render_primitive<const SIZE: usize>(
        draw_queue: &mut DrawQueue<'a, SIZE>, primitive: &Primitive<'a>, offset: Vector2<isize>,
        force_size: (Option<isize>, Option<isize>),
    ) -> (r: Result<Vector2<isize>, ()>)
        requires
            prim_ok(*primitive),
            prim_element_ok(*primitive, offset, force_size.0, force_size.1),
        ensures
            final(draw_queue)@ == queued(old(draw_queue)@, seq![prim_element(*primitive, offset, force_size.0, force_size.1)], SIZE as int),
            r is Ok <==> old(draw_queue)@.len() + 1 <= SIZE,
            r matches Ok(v) ==> v.x == opt_or(force_size.0, prim_size(*primitive, force_size).0)
                && v.y == opt_or(force_size.1, prim_size(*primitive, force_size).1),
    {
        let element = primitive.get_element(offset, force_size.0, force_size.1);
        if draw_queue.queue_element(element).is_err() {
            return Err(());
        }
        let size = primitive.get_size(force_size);
        Ok(Vector2 {
            x: match force_size.0 { Some(w) => w, None => size.x },
            y: match force_size.1 { Some(h) => h, None => size.y },
        })
    }

    /// Where a child in the flow goes, the offset after its leading margin, and its
    /// constraint (see [`flow_place`]).
    fn place_in_flow(
        vertical: bool, margin: Margin, offset: Vector2<isize>, last_margin: isize, child_force_size: (Option<isize>, Option<isize>),
    ) -> (r: (Vector2<isize>, Vector2<isize>, (Option<isize>, Option<isize>)))
        requires
            flow_place_ok(vertical, margin, (offset.x as int, offset.y as int), last_margin as int, child_force_size),
        ensures
            ((r.0.x as int, r.0.y as int), (r.1.x as int, r.1.y as int), r.2)
                == flow_place(vertical, margin, (offset.x as int, offset.y as int), last_margin as int, child_force_size),
    {
        let mut offset = offset;
        let mut pos = offset;
        let mut child_force_size = child_force_size;
        if vertical {
            let actual_margin = if margin.top > last_margin { margin.top } else { last_margin };
            offset.y = offset.y + actual_margin;
            pos.y = pos.y + actual_margin;
            pos.x = pos.x + margin.left;
            if let Some(width) = child_force_size.0 {
                child_force_size.0 = Some(width - (margin.left + margin.right));
            }
        } else {
            let actual_margin = if margin.left > last_margin { margin.left } else { last_margin };
            offset.x = offset.x + actual_margin;
            pos.x = pos.x + actual_margin;
            pos.y = pos.y + margin.top;
            if let Some(height) = child_force_size.1 {
                child_force_size.1 = Some(height - (margin.top + margin.bottom));
            }
        }
        (pos, offset, child_force_size)
    }

    /// Renders one child of `parent_container` at `offset` and returns the offset after it
    /// (see [`render_child`]); `last_margin` becomes the trailing margin after it.
    fn render_container_child<const SIZE: usize>(
        draw_queue: &mut DrawQueue<'a, SIZE>, parent_container: &Container<'a>, node: &Node<'a>, offset: Vector2<isize>,
        child_force_size: (Option<isize>, Option<isize>), child_force_size_expanded: (Option<isize>, Option<isize>),
        force_size: (Option<isize>, Option<isize>), parent_container_pos: Vector2<isize>,
        parent_container_size: Vector2<isize>, last_margin: &mut isize,
    ) -> (r: Result<Vector2<isize>, ()>)
        requires
            render_child_ok(is_vertical(parent_container.align), *node, (offset.x as int, offset.y as int), child_force_size,
                child_force_size_expanded, (parent_container_pos.x as int, parent_container_pos.y as int),
                (parent_container_size.x as int, parent_container_size.y as int), *old(last_margin) as int),
            old(draw_queue)@.len() <= SIZE,
        ensures
            ({
                let rc = render_child(is_vertical(parent_container.align), *node, (offset.x as int, offset.y as int),
                    child_force_size, child_force_size_expanded, (parent_container_pos.x as int, parent_container_pos.y as int),
                    (parent_container_size.x as int, parent_container_size.y as int), *old(last_margin) as int);
                &&& final(draw_queue)@ == queued(old(draw_queue)@, rc.0, SIZE as int)
                &&& (r is Ok <==> old(draw_queue)@.len() + rc.0.len() <= SIZE)
                &&& r matches Ok(v) ==> (v.x as int, v.y as int) == rc.1 && *final(last_margin) as int == rc.2
            }),
        decreases *node, 0int,
    {
        let vertical = match parent_container.align {
            AlignDirection::Left | AlignDirection::Right => false,
            _ => true,
        };
        match node {
            Node::Primitive(primitive) => {
                let margin = primitive.get_margin();
                let layout = primitive.get_layout_ovewrite();
                let (pos, offset1, cf) = match layout {
                    Layout::Relative(anchor, anchor_offset) => {
                        let node_size = primitive.get_size((None, None));
                        (get_anchor_offset_pos(node_size, anchor, anchor_offset, parent_container_pos, parent_container_size),
                            offset, child_force_size)
                    },
                    Layout::Default => Self::place_in_flow(vertical, margin, offset, *last_margin, child_force_size),
                    Layout::Transparent => (offset, offset, child_force_size),
                };
                let size = match Self::render_primitive(draw_queue, primitive, pos, cf) {
                    Ok(size) => size,
                    Err(()) => return Err(()),
                };
                if let Layout::Default = layout {
                    if vertical {
                        *last_margin = margin.bottom;
                        Ok(Vector2 { x: offset1.x, y: offset1.y + size.y })
                    } else {
                        *last_margin = margin.right;
                        Ok(Vector2 { x: offset1.x + size.x, y: offset1.y })
                    }
                } else {
                    Ok(offset1)
                }
            },
            Node::Container(container) => {
                let margin = container.margin;
                let (pos, offset1) = match container.layout_override {
                    Layout::Default => {
                        let placed = Self::place_in_flow(vertical, margin, offset, *last_margin, child_force_size);
                        (placed.0, placed.1)
                    },
                    Layout::Relative(anchor, anchor_offset) => {
                        let node_size = container.get_size((None, None));
                        (get_anchor_offset_pos(node_size, anchor, anchor_offset, parent_container_pos, parent_container_size),
                            offset)
                    },
                    Layout::Transparent => (offset, offset),
                };
                let target_size = if let Layout::Relative(..) = container.layout_override {
                    (None, None)
                } else if container.expand {
                    child_force_size_expanded
                } else {
                    let fit_size = container.get_content_size((None, None));
                    match container.align {
                        AlignDirection::Left | AlignDirection::Right => (None, Some(fit_size.y)),
                        _ => (Some(fit_size.x), None),
                    }
                };
                let size = match Self::render_container(draw_queue, container, pos, target_size) {
                    Ok(size) => size,
                    Err(()) => return Err(()),
                };
                if let Layout::Default = container.layout_override {
                    if vertical {
                        *last_margin = margin.bottom;
                        Ok(Vector2 { x: offset1.x, y: offset1.y + size.y })
                    } else {
                        *last_margin = margin.right;
                        Ok(Vector2 { x: offset1.x + size.x, y: offset1.y })
                    }
                } else {
                    Ok(offset1)
                }
            },
        }
    }

    /// Renders a container at `offset` under the constraint `force_size` and returns the
    /// size it takes (see [`render_container`]).
    fn render_container<const SIZE: usize>(
        draw_queue: &mut DrawQueue<'a, SIZE>, container: &Container<'a>, offset: Vector2<isize>,
        force_size: (Option<isize>, Option<isize>),
    ) -> (r: Result<Vector2<isize>, ()>)
        requires
            render_container_ok(*container, (offset.x as int, offset.y as int), force_size),
            old(draw_queue)@.len() <= SIZE,
        ensures
            ({
                let rc = render_container(*container, (offset.x as int, offset.y as int), force_size);
                &&& final(draw_queue)@ == queued(old(draw_queue)@, rc.0, SIZE as int)
                &&& (r is Ok <==> old(draw_queue)@.len() + rc.0.len() <= SIZE)
                &&& r matches Ok(v) ==> (v.x as int, v.y as int) == rc.1
            }),
        decreases *container, 2int,
    {
        let ghost q0 = draw_queue@;
        let ghost cpos = (offset.x as int, offset.y as int);
        let ghost force_size0 = force_size;
        let mut force_size = container.own_force_exec(force_size);
        let ghost f = force_size;
        let ghost fr = container_frame(*container, f);
        proof { lemma_render_container_ok_fold(*container, cpos, force_size0); }
        let child_force_size = child_force_exec(container.align, force_size);
        let container_pos = offset;
        let default_size = container.get_content_size(force_size);
        let margin = container.margin;
        let mut container_size = Vector2 {
            x: default_size.x - (margin.left + margin.right),
            y: default_size.y - (margin.top + margin.bottom),
        };
        if let Some(width) = force_size.0 {
            container_size.x = width;
        }
        if let Some(height) = force_size.1 {
            container_size.y = height;
        }
        let expand_size = container.get_expand_remaining_space(
            Vector2 {
                x: match force_size.0 { Some(w) => w, None => 0 },
                y: match force_size.1 { Some(h) => h, None => 0 },
            },
            force_size,
        );
        let child_force_size_expanded = match container.align {
            AlignDirection::Left | AlignDirection::Right => (Some(expand_size.x), force_size.1),
            _ => (force_size.0, Some(expand_size.y)),
        };
        let mut offset = match container.align {
            AlignDirection::Up => Vector2 { x: offset.x, y: offset.y + container_size.y - default_size.y },
            AlignDirection::Left => Vector2 { x: offset.x + container_size.x - default_size.x, y: offset.y },
            _ => offset,
        };
        proof {
            lemma_render_fold_base(*container, f, cpos);
            lemma_render_fold_prefix(*container, f, cpos, 0, container.children@.len() as int);
        }
        assert(child_force_size == fr.0);
        assert(child_force_size_expanded == fr.1);
        assert((container_size.x as int, container_size.y as int) == fr.2);
        let mut last_margin: isize = 0;
        let n = container.children.len();
        let reversed = match container.align {
            AlignDirection::Up | AlignDirection::Left => true,
            _ => false,
        };
        let mut j: usize = 0;
        let mut failed = false;
        while j < n && !failed
            invariant
                n == container.children@.len(),
                j <= n,
                reversed == (container.align is Up || container.align is Left),
                f == own_force(*container, force_size0),
                fr == container_frame(*container, f),
                cpos == (container_pos.x as int, container_pos.y as int),
                child_force_size == fr.0,
                child_force_size_expanded == fr.1,
                (container_size.x as int, container_size.y as int) == fr.2,
                q0.len() <= SIZE,
                render_fold_ok(*container, f, cpos, n as int),
                failed ==> draw_queue@ == queued(q0, render_fold(*container, f, cpos, n as int).0, SIZE as int)
                    && q0.len() + render_fold(*container, f, cpos, n as int).0.len() > SIZE,
                !failed ==> {
                    &&& draw_queue@ == q0 + render_fold(*container, f, cpos, j as int).0
                    &&& q0.len() + render_fold(*container, f, cpos, j as int).0.len() <= SIZE
                    &&& (offset.x as int, offset.y as int) == render_fold(*container, f, cpos, j as int).1
                    &&& opt_int(force_size.0) == render_fold(*container, f, cpos, j as int).2.0
                    &&& opt_int(force_size.1) == render_fold(*container, f, cpos, j as int).2.1
                    &&& last_margin as int == render_fold(*container, f, cpos, j as int).3
                },
            decreases n - j + (if failed { 0int } else { 1int }),
        {
            let ghost acc = render_fold(*container, f, cpos, j as int);
            let ghost child = container.children@[visit_index(*container, j as int)];
            let ghost rc = render_child(is_vertical(container.align), child, acc.1, fr.0, fr.1, cpos, fr.2, acc.3);
            proof {
                lemma_render_fold_step(*container, f, cpos, j as int);
                lemma_render_fold_ok_prefix(*container, f, cpos, j + 1, n as int);
                lemma_render_fold_prefix(*container, f, cpos, j + 1, n as int);
                lemma_queued_append(q0, acc.0, rc.0, SIZE as int);
            }
            let idx = if reversed { n - 1 - j } else { j };
            assert(idx as int == visit_index(*container, j as int));
            let r = Self::render_container_child(draw_queue, container, &container.children[idx], offset,
                child_force_size, child_force_size_expanded, force_size, container_pos, container_size, &mut last_margin);
            match r {
                Err(()) => {
                    proof {
                        let all = render_fold(*container, f, cpos, n as int).0;
                        let upto = render_fold(*container, f, cpos, j + 1).0;
                        lemma_queued_append(q0, upto, all.subrange(upto.len() as int, all.len() as int), SIZE as int);
                    }
                    failed = true;
                },
                Ok(o) => {
                    offset = o;
                    proof {
                        assert(q0 + acc.0 + rc.0 =~= q0 + (acc.0 + rc.0));
                    }
                    if let Some(_) = force_size.0 {
                        force_size.0 = Some(container_size.x - (offset.x - container_pos.x));
                    }
                    if let Some(_) = force_size.1 {
                        force_size.1 = Some(container_size.y - (offset.y - container_pos.y));
                    }
                    j += 1;
                },
            }
        }
        if failed {
            return Err(());
        }
        Ok(Vector2 {
            x: match force_size.0 { Some(w) => w, None => offset.x - container_pos.x },
            y: match force_size.1 { Some(h) => h, None => offset.y - container_pos.y },
        })
    }

    /// Renders the menu over the whole screen into `draw_queue`; `Err` when the queue
    /// could not take every element (it then holds those that fitted).
    pub fn render<const SIZE: usize>(&self, draw_queue: &mut DrawQueue<'a, SIZE>) -> (r: Result<(), ()>)
        requires
            render_container_ok(self.base_node, (0, 0), (Some(SCREEN_WIDTH as isize), Some(SCREEN_HEIGHT as isize))),
        ensures
            ({
                let rc = render_container(self.base_node, (0, 0), (Some(SCREEN_WIDTH as isize), Some(SCREEN_HEIGHT as isize)));
                &&& final(draw_queue)@ == queued(old(draw_queue)@, rc.0, SIZE as int)
                &&& (r is Ok <==> old(draw_queue)@.len() + rc.0.len() <= SIZE)
            }),
    {
        proof { use_type_invariant(&*draw_queue); }
        match Self::render_container(draw_queue, &self.base_node, Vector2 { x: 0, y: 0 },
            (Some(SCREEN_WIDTH as isize), Some(SCREEN_HEIGHT as isize))) {
            Ok(_) => Ok(()),
            Err(()) => Err(()),
        }
    }
}

} // verus!
