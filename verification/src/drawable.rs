//! Drawables, and the order in which they are drawn.

use crate::constant_flag::Live2DConstantFlag;
use crate::dynamic_flag::Live2DDynamicFlag;
use crate::scalar::Scalar;
use crate::vector2::Live2DVector2;
use vstd::prelude::*;

verus! {

/// One mesh of a model, as it is handed to whoever draws it.
#[derive(Clone, Debug)]
pub struct Live2DDrawable {
    pub id: String,
    pub constant_flag: Live2DConstantFlag,
    pub dynamic_flag: Live2DDynamicFlag,
    pub texture_index: i32,
    pub draw_order: i32,
    pub render_order: i32,
    pub opacitiy: Scalar,
    /// The numbers of the drawables that mask this one.
    pub masks: Vec<i32>,
    /// The corners of the triangles, three indices into the vertices each.
    pub indices: Vec<u16>,
    pub vertex_positions: Vec<Live2DVector2>,
    pub vertex_uvs: Vec<Live2DVector2>,
}

impl Live2DDrawable {
    #[inline]
    pub fn id(&self) -> (r: &String)
        ensures
            r@ == self.id@,
    {
        &self.id
    }

    #[inline]
    pub fn constant_flag(&self) -> (r: &Live2DConstantFlag)
        ensures
            *r == self.constant_flag,
    {
        &self.constant_flag
    }

    #[inline]
    pub fn dynamic_flag(&self) -> (r: &Live2DDynamicFlag)
        ensures
            *r == self.dynamic_flag,
    {
        &self.dynamic_flag
    }

    #[inline]
    pub fn texture_index(&self) -> (r: i32)
        ensures
            r == self.texture_index,
    {
        self.texture_index
    }

    #[inline]
    pub fn draw_order(&self) -> (r: i32)
        ensures
            r == self.draw_order,
    {
        self.draw_order
    }

    #[inline]
    pub fn render_order(&self) -> (r: i32)
        ensures
            r == self.render_order,
    {
        self.render_order
    }

    #[inline]
    pub fn opacitiy(&self) -> (r: Scalar)
        ensures
            r == self.opacitiy,
    {
        self.opacitiy
    }

    #[inline]
    pub fn mask_count(&self) -> (r: usize)
        ensures
            r == self.masks@.len(),
    {
        self.masks.len()
    }

    #[inline]
    pub fn vertex_count(&self) -> (r: usize)
        ensures
            r == self.vertex_positions@.len(),
    {
        self.vertex_positions.len()
    }

    #[inline]
    pub fn index_count(&self) -> (r: usize)
        ensures
            r == self.indices@.len(),
    {
        self.indices.len()
    }

    #[inline]
    pub fn masks(&self) -> (r: &Vec<i32>)
        ensures
            r@ == self.masks@,
    {
        &self.masks
    }

    /// The corners of the triangles; none where the drawable has no
    /// triangle.
    #[inline]
    pub fn indices(&self) -> (r: Option<&Vec<u16>>)
        ensures
            match r {
                Some(indices) => indices@ == self.indices@ && self.indices@.len() > 0,
                None => self.indices@.len() == 0,
            },
    {
        if self.indices.len() == 0 {
            return None;
        }
        Some(&self.indices)
    }

    #[inline]
    pub fn vertex_positions(&self) -> (r: &Vec<Live2DVector2>)
        ensures
            r@ == self.vertex_positions@,
    {
        &self.vertex_positions
    }

    #[inline]
    pub fn vertex_uvs(&self) -> (r: &Vec<Live2DVector2>)
        ensures
            r@ == self.vertex_uvs@,
    {
        &self.vertex_uvs
    }
}

/// Whether the drawable `a` is drawn before the drawable `b`: it has the
/// lower render order, or the same render order and the higher number.
pub open spec fn drawn_before(orders: Seq<i32>, a: int, b: int) -> bool {
    orders[a] < orders[b] || (orders[a] == orders[b] && a > b)
}

/// Whether `sequence` names the drawables with the render orders `orders`
/// in the order in which they are drawn: every drawable once, each before
/// all that are drawn after it.
pub open spec fn is_draw_sequence(orders: Seq<i32>, sequence: Seq<usize>) -> bool {
    &&& sequence.len() == orders.len()
    &&& forall|p: int| 0 <= p < sequence.len() ==> (#[trigger] sequence[p]) < orders.len()
    &&& forall|p: int, q: int|
        0 <= p < q < sequence.len() ==> drawn_before(
            orders,
            (#[trigger] sequence[p]) as int,
            (#[trigger] sequence[q]) as int,
        )
    &&& forall|j: usize| j < orders.len() ==> #[trigger] sequence.contains(j)
}

/// Two draw sequences of the same drawables name the same drawable at every
/// place.
pub proof fn lemma_draw_sequences_agree(
    orders: Seq<i32>,
    first: Seq<usize>,
    second: Seq<usize>,
    p: int,
)
    requires
        is_draw_sequence(orders, first),
        is_draw_sequence(orders, second),
        0 <= p < first.len(),
    ensures
        first[p] == second[p],
    decreases p,
{
    assert forall|k: int| 0 <= k < p implies first[k] == second[k] by {
        lemma_draw_sequences_agree(orders, first, second, k);
    }
    if first[p] != second[p] {
        // each of the two stands at a later place in the other sequence, so
        // each would be drawn before the other
        assert(second.contains(first[p]));
        let q = choose|q: int| 0 <= q < second.len() && second[q] == first[p];
        if q < p {
            assert(first[q] == second[q]);
            assert(drawn_before(orders, first[q] as int, first[p] as int));
        }
        assert(first.contains(second[p]));
        let r = choose|r: int| 0 <= r < first.len() && first[r] == second[p];
        if r < p {
            assert(first[r] == second[r]);
            assert(drawn_before(orders, second[r] as int, second[p] as int));
        }
        assert(drawn_before(orders, second[p] as int, second[q] as int));
        assert(drawn_before(orders, first[p] as int, first[r] as int));
    }
}

/// There is only one order in which drawables are drawn.
pub proof fn lemma_draw_sequence_is_unique(orders: Seq<i32>, first: Seq<usize>, second: Seq<usize>)
    requires
        is_draw_sequence(orders, first),
        is_draw_sequence(orders, second),
    ensures
        first == second,
{
    assert forall|p: int| 0 <= p < first.len() implies first[p] == second[p] by {
        lemma_draw_sequences_agree(orders, first, second, p);
    }
    assert(first =~= second);
}

/// The order in which the drawables with the given render orders are drawn:
/// from the lowest render order to the highest, and of drawables with the
/// same render order the one with the higher number first.
pub fn draw_sequence(orders: &Vec<i32>) -> (sequence: Vec<usize>)
    ensures
        is_draw_sequence(orders@, sequence@),
{
    let n = orders.len();
    let mut sequence: Vec<usize> = Vec::new();
    let mut i: usize = 0;
    while i < n
        invariant
            i <= n,
            n == orders@.len(),
            sequence@.len() == i,
            forall|p: int| 0 <= p < sequence@.len() ==> (#[trigger] sequence@[p]) < i,
            forall|p: int, q: int|
                0 <= p < q < sequence@.len() ==> drawn_before(
                    orders@,
                    (#[trigger] sequence@[p]) as int,
                    (#[trigger] sequence@[q]) as int,
                ),
            forall|j: usize| j < i ==> #[trigger] sequence@.contains(j),
        decreases n - i,
    {
        let own = orders[i];
        let length = sequence.len();
        let mut place: usize = 0;
        while place < length && orders[sequence[place]] < own
            invariant
                place <= length,
                length == sequence@.len(),
                i < n,
                n == orders@.len(),
                own == orders@[i as int],
                forall|p: int| 0 <= p < sequence@.len() ==> (#[trigger] sequence@[p]) < i,
                forall|p: int|
                    0 <= p < place ==> drawn_before(
                        orders@,
                        (#[trigger] sequence@[p]) as int,
                        i as int,
                    ),
            decreases length - place,
        {
            place += 1;
        }
        let ghost before = sequence@;
        sequence.insert(place, i);
        proof {
            let after = sequence@;
            assert forall|p: int, q: int| 0 <= p < q < after.len() implies drawn_before(
                orders@,
                (#[trigger] after[p]) as int,
                (#[trigger] after[q]) as int,
            ) by {
                if q < place {
                    assert(after[p] == before[p] && after[q] == before[q]);
                } else if q == place {
                    assert(after[p] == before[p]);
                } else if p < place {
                    assert(after[p] == before[p] && after[q] == before[q - 1]);
                } else if p == place {
                    assert(after[q] == before[q - 1]);
                    assert(before[place as int] < i);
                    if place < q - 1 {
                        assert(drawn_before(
                            orders@,
                            before[place as int] as int,
                            before[q - 1] as int,
                        ));
                    }
                } else {
                    assert(after[p] == before[p - 1] && after[q] == before[q - 1]);
                }
            }
            assert forall|j: usize| j < i + 1 implies #[trigger] after.contains(j) by {
                if j < i {
                    assert(before.contains(j));
                    let p = choose|p: int| 0 <= p < before.len() && before[p] == j;
                    if p < place {
                        assert(after[p] == j);
                    } else {
                        assert(after[p + 1] == j);
                    }
                } else {
                    assert(after[place as int] == i);
                }
            }
            assert forall|p: int| 0 <= p < after.len() implies (#[trigger] after[p]) < i + 1 by {
                if p < place {
                    assert(after[p] == before[p]);
                } else if p > place {
                    assert(after[p] == before[p - 1]);
                }
            }
        }
        i += 1;
    }
    sequence
}

} // verus!
