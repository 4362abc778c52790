//! A bounded queue of elements waiting to be drawn.
use vstd::prelude::*;
use crate::color::Color565;
use crate::geometry::Vector2;
use crate::renderer2d::elements::{Element, Font, ScaleMode};
use crate::renderer2d::nine_parts_rectangle::NinePartsTexture;
use crate::renderer2d::sprite::TransparentTexture;

verus! {

/// The queue after trying to append the elements `l`, in order, to the queue `q` of
/// capacity `size`: appending stops at the first element that does not fit.
pub open spec fn queued<'a>(q: Seq<Element<'a>>, l: Seq<Element<'a>>, size: int) -> Seq<Element<'a>> {
    if q.len() + l.len() <= size { q + l } else { (q + l).take(size) }
}

/// Appending `l1` then `l2` is appending `l1 + l2`, whether or not `l1` fit.
pub proof fn lemma_queued_append<'a>(q: Seq<Element<'a>>, l1: Seq<Element<'a>>, l2: Seq<Element<'a>>, size: int)
    requires
        q.len() <= size,
    ensures
        q.len() + l1.len() <= size ==> queued(q + l1, l2, size) == queued(q, l1 + l2, size),
        q.len() + l1.len() > size ==> queued(q, l1, size) == queued(q, l1 + l2, size),
{
    assert(q + l1 + l2 =~= q + (l1 + l2));
    if q.len() + l1.len() > size {
        assert((q + l1).take(size) =~= (q + (l1 + l2)).take(size));
    }
}

/// Queuing keeps what was queued, in place, appends the new elements in order, and
/// fills the queue at most to its capacity: it ends with as many elements as fit.
pub proof fn lemma_queued_keeps<'a>(q: Seq<Element<'a>>, l: Seq<Element<'a>>, size: int)
    requires
        q.len() <= size,
    ensures
        queued(q, l, size).take(q.len() as int) == q,
        queued(q, l, size).len() == if q.len() + l.len() <= size { q.len() + l.len() } else { size as nat },
        forall|k: int| 0 <= k < queued(q, l, size).len() - q.len() ==> #[trigger] queued(q, l, size)[q.len() + k] == l[k],
{
    assert(queued(q, l, size).take(q.len() as int) =~= q);
}

/// The queue after trying to append the elements of `l` one call at a time.
pub open spec fn queued_one_by_one<'a>(q: Seq<Element<'a>>, l: Seq<Element<'a>>, size: int) -> Seq<Element<'a>>
    decreases l.len(),
{
    if l.len() == 0 {
        q
    } else {
        queued(queued_one_by_one(q, l.drop_last(), size), seq![l.last()], size)
    }
}

/// Queuing elements one call at a time is queuing them all at once: the queue keeps
/// them in call order, as many as fit. From an empty queue it holds exactly the first
/// `min(l.len(), size)` elements of `l`.
pub proof fn lemma_queued_one_by_one<'a>(q: Seq<Element<'a>>, l: Seq<Element<'a>>, size: int)
    requires
        q.len() <= size,
    ensures
        queued_one_by_one(q, l, size) == queued(q, l, size),
        q.len() == 0 ==> queued_one_by_one(q, l, size) == l.take(if l.len() <= size { l.len() as int } else { size }),
    decreases l.len(),
{
    if l.len() > 0 {
        let init = l.drop_last();
        lemma_queued_one_by_one(q, init, size);
        assert(init + seq![l.last()] =~= l);
        if q.len() + init.len() <= size {
            lemma_queued_append(q, init, seq![l.last()], size);
        } else {
            lemma_queued_append(q, init, seq![l.last()], size);
            assert(queued(q, init, size).len() == size);
            assert(queued(q, init, size) =~= queued(queued(q, init, size), seq![l.last()], size));
        }
    }
    if q.len() == 0 {
        assert(q + l =~= l);
        assert(queued(q, l, size) =~= l.take(if l.len() <= size { l.len() as int } else { size }));
    }
}

/// The elements of a frame, in drawing order, at most `SIZE` of them.
pub struct DrawQueue<'a, const SIZE: usize> {
    queue: Vec<Element<'a>>,
}

impl<'a, const SIZE: usize> View for DrawQueue<'a, SIZE> {
    type V = Seq<Element<'a>>;

    closed spec fn view(&self) -> Seq<Element<'a>> {
        self.queue@
    }
}

impl<'a, const SIZE: usize> DrawQueue<'a, SIZE> {
    /// The queue holds at most `SIZE` elements.
    #[verifier::type_invariant]
    pub open spec fn within_capacity(self) -> bool {
        self@.len() <= SIZE
    }

    /// An empty queue.
    pub fn new() -> (q: Self)
        ensures
            q@ == Seq::<Element<'a>>::empty(),
    {
        DrawQueue { queue: Vec::new() }
    }

    /// Appends `element` if the queue has room for it; otherwise leaves the queue as it is
    /// and returns `Err`.
    pub fn queue_element(&mut self, element: Element<'a>) -> (r: Result<(), ()>)
        ensures
            final(self)@ == queued(old(self)@, seq![element], SIZE as int),
            r is Ok <==> old(self)@.len() < SIZE,
            old(self)@.len() < SIZE ==> r is Ok && final(self)@ == old(self)@.push(element),
            old(self)@.len() >= SIZE ==> r is Err && final(self)@ == old(self)@,
    {
        proof { use_type_invariant(&*self); }
        if self.queue.len() < SIZE {
            let mut q = Vec::new();
            std::mem::swap(&mut q, &mut self.queue);
            q.push(element);
            self.queue = q;
            assert(self@ =~= queued(old(self)@, seq![element], SIZE as int));
            Ok(())
        } else {
            assert(self@ =~= queued(old(self)@, seq![element], SIZE as int));
            Err(())
        }
    }

    /// Queues a flat colored rectangle.
    pub fn add_rectangle(&mut self, pos: Vector2<isize>, size: Vector2<u16>, color: Color565) -> (r: Result<(), ()>)
        ensures
            old(self)@.len() < SIZE ==> r is Ok && final(self)@ == old(self)@.push(
                Element::ColorRectangle { pos, size, color }),
            old(self)@.len() >= SIZE ==> r is Err && final(self)@ == old(self)@,
    {
        self.queue_element(Element::ColorRectangle { pos, size, color })
    }

    /// Queues a nine-parts rectangle.
    pub fn add_nine_parts_rectangle(
        &mut self, parts: &'a NinePartsTexture, pos: Vector2<isize>, size: Vector2<u16>, scaling_mode: ScaleMode,
    ) -> (r: Result<(), ()>)
        ensures
            old(self)@.len() < SIZE ==> r is Ok && final(self)@ == old(self)@.push(
                Element::NinePartsRectangle { parts, pos, size, scaling_mode }),
            old(self)@.len() >= SIZE ==> r is Err && final(self)@ == old(self)@,
    {
        self.queue_element(Element::NinePartsRectangle { parts, pos, size, scaling_mode })
    }

    /// Queues a text label.
    pub fn add_text(
        &mut self, pos: Vector2<isize>, text: &'a str, font: &'a Font, font_color: Color565,
        background_color: Option<Color565>,
    ) -> (r: Result<(), ()>)
        ensures
            old(self)@.len() < SIZE ==> r is Ok && final(self)@ == old(self)@.push(
                Element::Text { pos, text, font, font_color, background_color }),
            old(self)@.len() >= SIZE ==> r is Err && final(self)@ == old(self)@,
    {
        self.queue_element(Element::Text { pos, text, font, font_color, background_color })
    }

    /// Queues a sprite drawn at its own size.
    pub fn add_transparent_sprite(&mut self, pos: Vector2<isize>, texture: &'a TransparentTexture) -> (r: Result<(), ()>)
        ensures
            old(self)@.len() < SIZE ==> r is Ok && final(self)@ == old(self)@.push(
                Element::TransparentSprite { pos, texture }),
            old(self)@.len() >= SIZE ==> r is Err && final(self)@ == old(self)@,
    {
        self.queue_element(Element::TransparentSprite { pos, texture })
    }

    /// Queues a sprite stretched or tiled to `size`.
    pub fn add_transparent_scaled_sprite(
        &mut self, pos: Vector2<isize>, size: Vector2<u16>, texture: &'a TransparentTexture, scale_mode: ScaleMode,
    ) -> (r: Result<(), ()>)
        ensures
            old(self)@.len() < SIZE ==> r is Ok && final(self)@ == old(self)@.push(
                Element::TransparentScaledSprite { pos, size, texture, scale_mode }),
            old(self)@.len() >= SIZE ==> r is Err && final(self)@ == old(self)@,
    {
        self.queue_element(Element::TransparentScaledSprite { pos, size, texture, scale_mode })
    }

    /// Queues an element that the caller draws itself, under the caller's number `id`.
    pub fn add_external(&mut self, id: usize) -> (r: Result<(), ()>)
        ensures
            old(self)@.len() < SIZE ==> r is Ok && final(self)@ == old(self)@.push(Element::External { id }),
            old(self)@.len() >= SIZE ==> r is Err && final(self)@ == old(self)@,
    {
        self.queue_element(Element::External { id })
    }

    /// The queued elements, in drawing order.
    pub fn get_elements(&self) -> (e: &[Element<'a>])
        ensures
            e@ == self@,
    {
        self.queue.as_slice()
    }

    /// Number of queued elements.
    pub fn len(&self) -> (n: usize)
        ensures
            n == self@.len(),
            n <= SIZE,
    {
        proof { use_type_invariant(self); }
        self.queue.len()
    }
}

} // verus!
