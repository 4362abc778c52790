//! Sizes of containers: the size they take in their parent's flow, the size of their
//! content, and the space left to their expanding children.
use vstd::prelude::*;
use crate::geometry::Vector2;
use crate::gui::enums::{AlignDirection, Layout, is_vertical};
use crate::gui::margin::Margin;
use crate::gui::node::{Container, Node, Primitive, opt_or, prim_layout, prim_margin, prim_ok, prim_size};

verus! {

/// A value fits in an `isize`.
pub open spec fn fits(v: int) -> bool {
    isize::MIN <= v <= isize::MAX
}

/// The larger of `a` and `b`, preferring `b` on ties.
pub open spec fn max_of(a: int, b: int) -> int {
    if a > b { a } else { b }
}

/// The constraint a container hands to its children: along its flow the children keep
/// their own length, across it they take the container's forced length, if any.
pub open spec fn child_force(align: AlignDirection, f: (Option<isize>, Option<isize>)) -> (Option<isize>, Option<isize>) {
    if is_vertical(align) { (f.0, None) } else { (None, f.1) }
}

/// The constraint a container applies to itself: a detached container ignores its parent's.
pub open spec fn own_force(c: Container, force: (Option<isize>, Option<isize>)) -> (Option<isize>, Option<isize>) {
    if c.layout_override is Relative { (None, None) } else { force }
}

/// The margin of a node.
pub open spec fn node_margin(n: Node) -> Margin {
    match n {
        Node::Primitive(p) => prim_margin(p),
        Node::Container(c) => c.margin,
    }
}

/// The size of a container in its parent's flow under the constraint `force`: the sizes
/// of its children added along its flow (with the larger of two facing margins between
/// them, and the last child's trailing margin) and the largest across it; then on each
/// axis the forced length wins, except along the flow when a child container expands.
pub open spec fn container_size(c: Container, force: (Option<isize>, Option<isize>)) -> (int, int)
    decreases c, 0int,
{
    let f = own_force(c, force);
    let acc = size_fold(c.children@, c.align, child_force(c.align, f), false, c.children@.len() as int);
    finish_size(c.align, f, acc, true)
}

/// The size of a container's content under the constraint `force`: as
/// [`container_size`], except that when nothing is forced across the flow the children's
/// side margins count across it, and forced lengths only apply along the flow of a
/// container with an expanding child.
pub open spec fn content_size(c: Container, force: (Option<isize>, Option<isize>)) -> (int, int) {
    let f = own_force(c, force);
    let cm = if is_vertical(c.align) { f.0 is None } else { f.1 is None };
    let acc = size_fold(c.children@, c.align, child_force(c.align, f), cm, c.children@.len() as int);
    finish_size(c.align, f, acc, false)
}

/// Adds the trailing margin along the flow, then applies the forced lengths.
pub open spec fn finish_size(
    align: AlignDirection, f: (Option<isize>, Option<isize>), acc: (int, int, int, bool), force_fit: bool,
) -> (int, int) {
    let t = if is_vertical(align) { (acc.0, acc.1 + acc.2) } else { (acc.0 + acc.2, acc.1) };
    if acc.3 {
        if is_vertical(align) { (t.0, opt_or(f.1, t.1)) } else { (opt_or(f.0, t.0), t.1) }
    } else if force_fit {
        (opt_or(f.0, t.0), opt_or(f.1, t.1))
    } else {
        t
    }
}

/// The size a child takes in its container's flow before margins: nothing for a
/// detached or transparent child.
pub open spec fn flow_size(n: Node, cf: (Option<isize>, Option<isize>)) -> (int, int)
    decreases n, 1int,
{
    match n {
        Node::Primitive(p) => if prim_layout(p) is Default { prim_size(p, cf) } else { (0, 0) },
        Node::Container(c) => if c.layout_override is Default { container_size(c, cf) } else { (0, 0) },
    }
}

/// The state after laying out the first `k` children: total length along the flow,
/// largest length across it, trailing margin of the last child, and whether an
/// expanding child container was met. With `cm`, side margins count across the flow.
pub open spec fn size_fold(
    ch: Seq<Node>, align: AlignDirection, cf: (Option<isize>, Option<isize>), cm: bool, k: int,
) -> (int, int, int, bool)
    decreases ch, k,
{
    if k <= 0 || k > ch.len() {
        (0, 0, 0, false)
    } else {
        let n = ch[k - 1];
        fold_step(size_fold(ch, align, cf, cm, k - 1), flow_size(n, cf), node_margin(n), node_expands(n), align, cm)
    }
}

/// The child is an expanding container taking part in the flow.
pub open spec fn node_expands(n: Node) -> bool {
    n matches Node::Container(c) && c.layout_override is Default && c.expand
}

/// The layout state after one more child of size `s` and margin `m`.
pub open spec fn fold_step(
    acc: (int, int, int, bool), s: (int, int), m: Margin, exp: bool, align: AlignDirection, cm: bool,
) -> (int, int, int, bool) {
    if is_vertical(align) {
        let cross = if cm { s.0 + m.left + m.right } else { s.0 };
        (max_of(acc.0, cross), acc.1 + (s.1 + max_of(m.top as int, acc.2)), m.bottom as int, acc.3 || exp)
    } else {
        let cross = if cm { s.1 + m.top + m.bottom } else { s.1 };
        (acc.0 + (s.0 + max_of(m.left as int, acc.2)), max_of(acc.1, cross), m.right as int, acc.3 || exp)
    }
}

/// Every value computed by [`fold_step`] fits in an `isize`.
pub open spec fn fold_step_ok(acc: (int, int, int, bool), s: (int, int), m: Margin, align: AlignDirection, cm: bool) -> bool {
    &&& fits(s.0) && fits(s.1)
    &&& if is_vertical(align) {
        &&& fits(s.1 + max_of(m.top as int, acc.2))
        &&& fits(acc.1 + (s.1 + max_of(m.top as int, acc.2)))
        &&& cm ==> fits(s.0 + m.left) && fits(s.0 + m.left + m.right)
    } else {
        &&& fits(s.0 + max_of(m.left as int, acc.2))
        &&& fits(acc.0 + (s.0 + max_of(m.left as int, acc.2)))
        &&& cm ==> fits(s.1 + m.top) && fits(s.1 + m.top + m.bottom)
    }
}

/// Every value computed for [`container_size`] fits in an `isize`, and every text met
/// has a width that can be computed.
pub open spec fn container_size_ok(c: Container, force: (Option<isize>, Option<isize>)) -> bool
    decreases c, 0int,
{
    let f = own_force(c, force);
    let cf = child_force(c.align, f);
    &&& size_fold_ok(c.children@, c.align, cf, false, c.children@.len() as int)
    &&& finish_ok(c.align, size_fold(c.children@, c.align, cf, false, c.children@.len() as int))
}

/// Every value computed for [`content_size`] fits in an `isize`.
pub open spec fn content_size_ok(c: Container, force: (Option<isize>, Option<isize>)) -> bool {
    let f = own_force(c, force);
    let cf = child_force(c.align, f);
    let cm = if is_vertical(c.align) { f.0 is None } else { f.1 is None };
    &&& size_fold_ok(c.children@, c.align, cf, cm, c.children@.len() as int)
    &&& finish_ok(c.align, size_fold(c.children@, c.align, cf, cm, c.children@.len() as int))
}

/// Adding the trailing margin fits in an `isize`.
pub open spec fn finish_ok(align: AlignDirection, acc: (int, int, int, bool)) -> bool {
    if is_vertical(align) { fits(acc.1 + acc.2) } else { fits(acc.0 + acc.2) }
}

/// Every value computed for [`flow_size`] fits in an `isize`.
pub open spec fn flow_size_ok(n: Node, cf: (Option<isize>, Option<isize>)) -> bool
    decreases n, 1int,
{
    match n {
        Node::Primitive(p) => prim_layout(p) is Default ==> prim_ok(p),
        Node::Container(c) => c.layout_override is Default ==> container_size_ok(c, cf),
    }
}

/// Every value computed for [`size_fold`] over the first `k` children fits in an `isize`.
pub open spec fn size_fold_ok(ch: Seq<Node>, align: AlignDirection, cf: (Option<isize>, Option<isize>), cm: bool, k: int) -> bool
    decreases ch, k,
{
    if k <= 0 || k > ch.len() {
        true
    } else {
        let n = ch[k - 1];
        &&& size_fold_ok(ch, align, cf, cm, k - 1)
        &&& flow_size_ok(n, cf)
        &&& fold_step_ok(size_fold(ch, align, cf, cm, k - 1), flow_size(n, cf), node_margin(n), align, cm)
    }
}

/// The fold's checks over `k` children cover its first `j` children.
pub proof fn lemma_size_fold_ok_prefix(
    ch: Seq<Node>, align: AlignDirection, cf: (Option<isize>, Option<isize>), cm: bool, j: int, k: int,
)
    requires
        0 <= j <= k <= ch.len(),
        size_fold_ok(ch, align, cf, cm, k),
    ensures
        size_fold_ok(ch, align, cf, cm, j),
    decreases k - j,
{
    if j < k {
        lemma_size_fold_ok_prefix(ch, align, cf, cm, j, k - 1);
    }
}

/// The constraint handed to the children, computed.
pub(crate) fn child_force_exec(align: AlignDirection, f: (Option<isize>, Option<isize>)) -> (cf: (Option<isize>, Option<isize>))
    ensures
        cf == child_force(align, f),
{
    match align {
        AlignDirection::Left | AlignDirection::Right => (None, f.1),
        _ => (f.0, None),
    }
}

/// The larger of `a` and `b`, preferring `b` on ties.
fn max_margin(a: isize, b: isize) -> (m: isize)
    ensures
        m == max_of(a as int, b as int),
{
    if a > b { a } else { b }
}

/// The size a child takes in the flow, its margin and whether it expands.
fn flow_size_exec<'a>(child: &Node<'a>, cf: (Option<isize>, Option<isize>)) -> (r: (Vector2<isize>, Margin, bool))
    requires
        flow_size_ok(*child, cf),
    ensures
        (r.0.x as int, r.0.y as int) == flow_size(*child, cf),
        r.1 == node_margin(*child),
        r.2 == node_expands(*child),
    decreases *child, 1int,
{
    match child {
        Node::Primitive(p) => {
            let s = if let Layout::Default = p.get_layout_ovewrite() { p.get_size(cf) } else { Vector2 { x: 0, y: 0 } };
            (s, p.get_margin(), false)
        },
        Node::Container(c) => {
            if let Layout::Default = c.layout_override {
                (c.get_size(cf), c.margin, c.expand)
            } else {
                (Vector2 { x: 0, y: 0 }, c.margin, false)
            }
        },
    }
}

/// One more child in the layout state (see [`fold_step`]).
fn fold_step_exec(
    acc: (isize, isize, isize, bool), size: Vector2<isize>, margin: Margin, exp: bool, align: AlignDirection, cm: bool,
) -> (r: (isize, isize, isize, bool))
    requires
        fold_step_ok((acc.0 as int, acc.1 as int, acc.2 as int, acc.3), (size.x as int, size.y as int), margin, align, cm),
    ensures
        (r.0 as int, r.1 as int, r.2 as int, r.3) == fold_step((acc.0 as int, acc.1 as int, acc.2 as int, acc.3),
            (size.x as int, size.y as int), margin, exp, align, cm),
{
    let (mut total_x, mut total_y, mut last_margin, mut max_direction) = acc;
    let mut size_x = size.x;
    let mut size_y = size.y;
    if exp {
        max_direction = true;
    }
    match align {
        AlignDirection::Left | AlignDirection::Right => {
            size_x = size_x + max_margin(margin.left, last_margin);
            last_margin = margin.right;
            total_x = total_x + size_x;
            if cm {
                if size_y + margin.top + margin.bottom > total_y {
                    total_y = size_y + margin.top + margin.bottom;
                }
            } else {
                if size_y > total_y {
                    total_y = size_y;
                }
            }
        },
        _ => {
            size_y = size_y + max_margin(margin.top, last_margin);
            last_margin = margin.bottom;
            total_y = total_y + size_y;
            if cm {
                if size_x + margin.left + margin.right > total_x {
                    total_x = size_x + margin.left + margin.right;
                }
            } else {
                if size_x > total_x {
                    total_x = size_x;
                }
            }
        },
    }
    (total_x, total_y, last_margin, max_direction)
}

/// Lays out the children one after the other (see [`size_fold`]).
fn size_fold_exec<'a>(children: &Vec<Node<'a>>, align: AlignDirection, cf: (Option<isize>, Option<isize>), cm: bool) -> (r: (isize, isize, isize, bool))
    requires
        size_fold_ok(children@, align, cf, cm, children@.len() as int),
    ensures
        (r.0 as int, r.1 as int, r.2 as int, r.3) == size_fold(children@, align, cf, cm, children@.len() as int),
    decreases children, 0int,
{
    let mut total_x: isize = 0;
    let mut total_y: isize = 0;
    let mut last_margin: isize = 0;
    let mut max_direction = false;
    let mut k: usize = 0;
    while k < children.len()
        invariant
            k <= children@.len(),
            size_fold_ok(children@, align, cf, cm, children@.len() as int),
            (total_x as int, total_y as int, last_margin as int, max_direction) == size_fold(children@, align, cf, cm, k as int),
        decreases children@.len() - k,
    {
        proof { lemma_size_fold_ok_prefix(children@, align, cf, cm, k + 1, children@.len() as int); }
        let child = &children[k];
        assert(size_fold_ok(children@, align, cf, cm, k + 1));
        let (size, margin, exp) = flow_size_exec(child, cf);
        let acc = fold_step_exec((total_x, total_y, last_margin, max_direction), size, margin, exp, align, cm);
        total_x = acc.0;
        total_y = acc.1;
        last_margin = acc.2;
        max_direction = acc.3;
        k += 1;
    }
    (total_x, total_y, last_margin, max_direction)
}

/// Adds the trailing margin, then applies the forced lengths (see [`finish_size`]).
fn finish_size_exec(align: AlignDirection, f: (Option<isize>, Option<isize>), acc: (isize, isize, isize, bool), force_fit: bool) -> (r: Vector2<isize>)
    requires
        finish_ok(align, (acc.0 as int, acc.1 as int, acc.2 as int, acc.3)),
    ensures
        (r.x as int, r.y as int) == finish_size(align, f, (acc.0 as int, acc.1 as int, acc.2 as int, acc.3), force_fit),
{
    let mut total_x = acc.0;
    let mut total_y = acc.1;
    let vertical = match align {
        AlignDirection::Left | AlignDirection::Right => false,
        _ => true,
    };
    if vertical {
        total_y = total_y + acc.2;
    } else {
        total_x = total_x + acc.2;
    }
    if acc.3 {
        if vertical {
            Vector2 { x: total_x, y: match f.1 { Some(h) => h, None => total_y } }
        } else {
            Vector2 { x: match f.0 { Some(w) => w, None => total_x }, y: total_y }
        }
    } else if force_fit {
        Vector2 { x: match f.0 { Some(w) => w, None => total_x }, y: match f.1 { Some(h) => h, None => total_y } }
    } else {
        Vector2 { x: total_x, y: total_y }
    }
}

/// What a child takes from the space left to expanding containers, before margins,
/// and whether it is an expanding container (which takes none).
pub open spec fn fixed_size(n: Node, cf: (Option<isize>, Option<isize>)) -> (int, int) {
    match n {
        Node::Primitive(p) => prim_size(p, cf),
        Node::Container(c) => if c.expand { (0, 0) } else { container_size(c, (None, None)) },
    }
}

/// The child takes part in the flow (neither detached nor transparent).
pub open spec fn in_flow(n: Node) -> bool {
    match n {
        Node::Primitive(p) => prim_layout(p) is Default,
        Node::Container(c) => c.layout_override is Default,
    }
}

/// The state after the first `k` children when sharing space among expanding containers:
/// the space taken on each axis by the children in the flow (with the larger of two
/// facing margins before each), the number of expanding containers, and the trailing
/// margin of the last child in the flow.
pub open spec fn expand_fold(ch: Seq<Node>, align: AlignDirection, cf: (Option<isize>, Option<isize>), k: int) -> (int, int, int, int)
    decreases k,
{
    if k <= 0 || k > ch.len() {
        (0, 0, 0, 0)
    } else {
        let acc = expand_fold(ch, align, cf, k - 1);
        let n = ch[k - 1];
        if !in_flow(n) {
            acc
        } else {
            let s = fixed_size(n, cf);
            let m = node_margin(n);
            let count = if node_expands(n) { acc.2 + 1 } else { acc.2 };
            if is_vertical(align) {
                (acc.0 + s.0, acc.1 + (s.1 + max_of(m.top as int, acc.3)), count, m.bottom as int)
            } else {
                (acc.0 + (s.0 + max_of(m.left as int, acc.3)), acc.1 + s.1, count, m.right as int)
            }
        }
    }
}

/// The length each expanding child of `c` gets on each axis, out of `max_size`: what the
/// other children in the flow (and the trailing margin) leave, divided evenly (rounding
/// toward zero); nothing when no child expands.
pub open spec fn expand_remaining_space(c: Container, max_size: (int, int), force: (Option<isize>, Option<isize>)) -> (int, int) {
    let acc = expand_fold(c.children@, c.align, child_force(c.align, force), c.children@.len() as int);
    let taken = if is_vertical(c.align) { (acc.0, acc.1 + acc.3) } else { (acc.0 + acc.3, acc.1) };
    if acc.2 > 0 {
        (crate::renderer2d::nine_parts_rectangle::trunc_div(max_size.0 - taken.0, acc.2),
            crate::renderer2d::nine_parts_rectangle::trunc_div(max_size.1 - taken.1, acc.2))
    } else {
        (0, 0)
    }
}

/// Every value computed by [`expand_fold`] over the first `k` children fits in an `isize`.
pub open spec fn expand_fold_ok(ch: Seq<Node>, align: AlignDirection, cf: (Option<isize>, Option<isize>), k: int) -> bool
    decreases k,
{
    if k <= 0 || k > ch.len() {
        true
    } else {
        let acc = expand_fold(ch, align, cf, k - 1);
        let n = ch[k - 1];
        let s = fixed_size(n, cf);
        let m = node_margin(n);
        &&& expand_fold_ok(ch, align, cf, k - 1)
        &&& in_flow(n) ==> {
            &&& match n {
                Node::Primitive(p) => prim_ok(p),
                Node::Container(c) => !c.expand ==> container_size_ok(c, (None, None)),
            }
            &&& fits(s.0) && fits(s.1) && fits(acc.2 + 1)
            &&& if is_vertical(align) {
                fits(s.1 + max_of(m.top as int, acc.3)) && fits(acc.1 + (s.1 + max_of(m.top as int, acc.3)))
                    && fits(acc.0 + s.0)
            } else {
                fits(s.0 + max_of(m.left as int, acc.3)) && fits(acc.0 + (s.0 + max_of(m.left as int, acc.3)))
                    && fits(acc.1 + s.1)
            }
        }
    }
}

/// Every value computed by [`expand_remaining_space`] fits in an `isize`.
pub open spec fn expand_remaining_space_ok(c: Container, max_size: (int, int), force: (Option<isize>, Option<isize>)) -> bool {
    let cf = child_force(c.align, force);
    let acc = expand_fold(c.children@, c.align, cf, c.children@.len() as int);
    let taken = if is_vertical(c.align) { (acc.0, acc.1 + acc.3) } else { (acc.0 + acc.3, acc.1) };
    &&& expand_fold_ok(c.children@, c.align, cf, c.children@.len() as int)
    &&& fits(taken.0) && fits(taken.1)
    &&& acc.2 > 0 ==> fits(max_size.0 - taken.0) && fits(max_size.1 - taken.1)
}

/// The fold's checks over `k` children cover its first `j` children.
pub proof fn lemma_expand_fold_ok_prefix(ch: Seq<Node>, align: AlignDirection, cf: (Option<isize>, Option<isize>), j: int, k: int)
    requires
        0 <= j <= k <= ch.len(),
        expand_fold_ok(ch, align, cf, k),
    ensures
        expand_fold_ok(ch, align, cf, j),
    decreases k - j,
{
    if j < k {
        lemma_expand_fold_ok_prefix(ch, align, cf, j, k - 1);
    }
}

/// The expanding-container count never exceeds the children seen.
pub proof fn lemma_expand_count(ch: Seq<Node>, align: AlignDirection, cf: (Option<isize>, Option<isize>), k: int)
    requires
        0 <= k <= ch.len(),
    ensures
        0 <= expand_fold(ch, align, cf, k).2 <= k,
    decreases k,
{
    if k > 0 {
        lemma_expand_count(ch, align, cf, k - 1);
    }
}

/// With no expanding child container in the flow, no child makes the fold expand.
proof fn lemma_size_fold_no_expand(
    ch: Seq<Node>, align: AlignDirection, cf: (Option<isize>, Option<isize>), cm: bool, k: int,
)
    requires
        forall|j: int| 0 <= j < ch.len() ==> !node_expands(#[trigger] ch[j]),
    ensures
        !size_fold(ch, align, cf, cm, k).3,
    decreases k,
{
    if 0 < k <= ch.len() {
        lemma_size_fold_no_expand(ch, align, cf, cm, k - 1);
    }
}

/// A container without expanding children takes the lengths it is forced to, whatever
/// its children; a detached container ignores the lengths its parent forces on it.
pub proof fn lemma_forced_size_wins(c: Container, w: isize, h: isize, force: (Option<isize>, Option<isize>))
    ensures
        !(c.layout_override is Relative) && (forall|j: int| 0 <= j < c.children@.len() ==> !node_expands(#[trigger] c.children@[j]))
            ==> container_size(c, (Some(w), Some(h))) == (w as int, h as int),
        c.layout_override is Relative ==> container_size(c, force) == container_size(c, (None, None))
            && container_size_ok(c, force) == container_size_ok(c, (None, None)),
{
    if !(c.layout_override is Relative) && (forall|j: int| 0 <= j < c.children@.len() ==> !node_expands(#[trigger] c.children@[j])) {
        let f = own_force(c, (Some(w), Some(h)));
        lemma_size_fold_no_expand(c.children@, c.align, child_force(c.align, f), false, c.children@.len() as int);
    }
}

/// The length across the flow that a child of size `s` and margin `m` asks for: its own
/// length, plus its side margins when they count.
pub open spec fn cross_need(align: AlignDirection, s: (int, int), m: Margin, cm: bool) -> int {
    if is_vertical(align) {
        if cm { s.0 + m.left + m.right } else { s.0 }
    } else {
        if cm { s.1 + m.top + m.bottom } else { s.1 }
    }
}

/// Across the flow, the fold keeps the largest length any of the first `k` children asks
/// for (and 0 with no child).
proof fn lemma_size_fold_cross(ch: Seq<Node>, align: AlignDirection, cf: (Option<isize>, Option<isize>), cm: bool, k: int)
    requires
        0 <= k <= ch.len(),
    ensures
        ({
            let acc = size_fold(ch, align, cf, cm, k);
            let got = if is_vertical(align) { acc.0 } else { acc.1 };
            &&& got >= 0
            &&& forall|j: int| 0 <= j < k ==> got >= cross_need(align, flow_size(#[trigger] ch[j], cf), node_margin(ch[j]), cm)
            &&& got == 0 || exists|j: int| 0 <= j < k && got == cross_need(align, flow_size(#[trigger] ch[j], cf), node_margin(ch[j]), cm)
        }),
    decreases k,
{
    if k > 0 {
        lemma_size_fold_cross(ch, align, cf, cm, k - 1);
        let acc = size_fold(ch, align, cf, cm, k);
        let prev = size_fold(ch, align, cf, cm, k - 1);
        let got = if is_vertical(align) { acc.0 } else { acc.1 };
        let pgot = if is_vertical(align) { prev.0 } else { prev.1 };
        let need = cross_need(align, flow_size(ch[k - 1], cf), node_margin(ch[k - 1]), cm);
        assert(got == max_of(pgot, need));
        if got != 0 {
            if got == need {
                assert(0 <= k - 1 < k && got == cross_need(align, flow_size(ch[k - 1], cf), node_margin(ch[k - 1]), cm));
            } else {
                assert(got == pgot);
                let j = choose|j: int| 0 <= j < k - 1 && pgot == cross_need(align, flow_size(#[trigger] ch[j], cf), node_margin(ch[j]), cm);
                assert(0 <= j < k && got == cross_need(align, flow_size(ch[j], cf), node_margin(ch[j]), cm));
            }
        }
    }
}

/// Across its flow, a container not forced on that axis is as long as the longest of its
/// children there (0 with none): a row is as tall as its tallest child, a column as wide
/// as its widest, whatever their order. Its content also makes room for each child's side
/// margins across the flow.
pub proof fn lemma_cross_is_largest_child(c: Container, force: (Option<isize>, Option<isize>))
    requires
        if is_vertical(c.align) { own_force(c, force).0 is None } else { own_force(c, force).1 is None },
    ensures
        ({
            let cf = child_force(c.align, own_force(c, force));
            let size = container_size(c, force);
            let got = if is_vertical(c.align) { size.0 } else { size.1 };
            let content = content_size(c, force);
            let cgot = if is_vertical(c.align) { content.0 } else { content.1 };
            &&& got >= 0
            &&& forall|j: int| 0 <= j < c.children@.len() ==> got >= cross_need(c.align,
                flow_size(#[trigger] c.children@[j], cf), node_margin(c.children@[j]), false)
            &&& got == 0 || exists|j: int| 0 <= j < c.children@.len() && got == cross_need(c.align,
                flow_size(#[trigger] c.children@[j], cf), node_margin(c.children@[j]), false)
            &&& forall|j: int| 0 <= j < c.children@.len() ==> cgot >= cross_need(c.align,
                flow_size(#[trigger] c.children@[j], cf), node_margin(c.children@[j]), true)
        }),
{
    let f = own_force(c, force);
    let cf = child_force(c.align, f);
    let n = c.children@.len() as int;
    lemma_size_fold_cross(c.children@, c.align, cf, false, n);
    lemma_size_fold_cross(c.children@, c.align, cf, true, n);
}

/// Whether a child is in the flow, what it takes from the space left to expanding
/// containers, its margin, and whether it is an expanding container.
fn fixed_size_exec<'a>(child: &Node<'a>, cf: (Option<isize>, Option<isize>)) -> (r: (bool, Vector2<isize>, Margin, bool))
    requires
        in_flow(*child) ==> match *child {
            Node::Primitive(p) => prim_ok(p),
            Node::Container(c) => !c.expand ==> container_size_ok(c, (None, None)),
        },
    ensures
        r.0 == in_flow(*child),
        r.0 ==> (r.1.x as int, r.1.y as int) == fixed_size(*child, cf) && r.2 == node_margin(*child),
        r.3 == node_expands(*child),
{
    match child {
        Node::Primitive(p) => {
            if let Layout::Default = p.get_layout_ovewrite() {
                (true, p.get_size(cf), p.get_margin(), false)
            } else {
                (false, Vector2 { x: 0, y: 0 }, Margin::none(), false)
            }
        },
        Node::Container(c) => {
            if let Layout::Default = c.layout_override {
                if c.expand {
                    (true, Vector2 { x: 0, y: 0 }, c.margin, true)
                } else {
                    (true, c.get_size((None, None)), c.margin, false)
                }
            } else {
                (false, Vector2 { x: 0, y: 0 }, Margin::none(), false)
            }
        },
    }
}

impl<'a> Container<'a> {
    /// The constraint the container applies to itself.
    pub(crate) fn own_force_exec(&self, force: (Option<isize>, Option<isize>)) -> (f: (Option<isize>, Option<isize>))
        ensures
            f == own_force(*self, force),
    {
        if let Layout::Relative(..) = self.layout_override { (None, None) } else { force }
    }

    /// The size of the container in its parent's flow (see [`container_size`]).
    pub fn get_size(&self, force_size: (Option<isize>, Option<isize>)) -> (s: Vector2<isize>)
        requires
            container_size_ok(*self, force_size),
        ensures
            (s.x as int, s.y as int) == container_size(*self, force_size),
        decreases self, 0int,
    {
        let f = self.own_force_exec(force_size);
        let cf = child_force_exec(self.align, f);
        let acc = size_fold_exec(&self.children, self.align, cf, false);
        finish_size_exec(self.align, f, acc, true)
    }

    /// The size of the container's content (see [`content_size`]).
    pub fn get_content_size(&self, force_size: (Option<isize>, Option<isize>)) -> (s: Vector2<isize>)
        requires
            content_size_ok(*self, force_size),
        ensures
            (s.x as int, s.y as int) == content_size(*self, force_size),
    {
        let f = self.own_force_exec(force_size);
        let cf = child_force_exec(self.align, f);
        let cm = match self.align {
            AlignDirection::Left | AlignDirection::Right => f.1.is_none(),
            _ => f.0.is_none(),
        };
        let acc = size_fold_exec(&self.children, self.align, cf, cm);
        finish_size_exec(self.align, f, acc, false)
    }

    /// The length each expanding child gets on each axis (see [`expand_remaining_space`]).
    pub fn get_expand_remaining_space(&self, max_size: Vector2<isize>, force_size: (Option<isize>, Option<isize>)) -> (s: Vector2<isize>)
        requires
            expand_remaining_space_ok(*self, (max_size.x as int, max_size.y as int), force_size),
        ensures
            (s.x as int, s.y as int) == expand_remaining_space(*self, (max_size.x as int, max_size.y as int), force_size),
    {
        let cf = child_force_exec(self.align, force_size);
        let ghost ch = self.children@;
        let mut non_expand_x: isize = 0;
        let mut non_expand_y: isize = 0;
        let mut expandable_count: isize = 0;
        let mut last_margin: isize = 0;
        let mut k: usize = 0;
        while k < self.children.len()
            invariant
                k <= ch.len(),
                ch == self.children@,
                cf == child_force(self.align, force_size),
                expand_fold_ok(ch, self.align, cf, ch.len() as int),
                (non_expand_x as int, non_expand_y as int, expandable_count as int, last_margin as int)
                    == expand_fold(ch, self.align, cf, k as int),
            decreases ch.len() - k,
        {
            proof {
                lemma_expand_fold_ok_prefix(ch, self.align, cf, k + 1, ch.len() as int);
                lemma_expand_count(ch, self.align, cf, k as int);
            }
            assert(expand_fold_ok(ch, self.align, cf, k + 1));
            let (in_flow, mut size, margin, expands) = fixed_size_exec(&self.children[k], cf);
            if expands {
                expandable_count = expandable_count + 1;
            }
            if in_flow {
                match self.align {
                    AlignDirection::Left | AlignDirection::Right => {
                        size.x = size.x + max_margin(margin.left, last_margin);
                        last_margin = margin.right;
                    },
                    _ => {
                        size.y = size.y + max_margin(margin.top, last_margin);
                        last_margin = margin.bottom;
                    },
                }
                non_expand_x = non_expand_x + size.x;
                non_expand_y = non_expand_y + size.y;
            }
            k += 1;
        }
        match self.align {
            AlignDirection::Left | AlignDirection::Right => {
                non_expand_x = non_expand_x + last_margin;
            },
            _ => {
                non_expand_y = non_expand_y + last_margin;
            },
        }
        if expandable_count > 0 {
            Vector2 {
                x: (max_size.x - non_expand_x) / expandable_count,
                y: (max_size.y - non_expand_y) / expandable_count,
            }
        } else {
            Vector2 { x: 0, y: 0 }
        }
    }
}

} // verus!
