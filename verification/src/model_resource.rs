//! The parameters, parts and drawables of a model, and the lookup of a
//! parameter or part by its identifier.

use crate::drawable::{draw_sequence, is_draw_sequence, Live2DDrawable};
use crate::scalar::Scalar;
use crate::vector2::Live2DVector2;
use vstd::prelude::*;

verus! {

/// One parameter of a model: its identifier, the range and the default that
/// the model declares for it, and its present value.
#[derive(Clone, Debug)]
pub struct Live2DParameter {
    pub id: String,
    pub minimum_value: Scalar,
    pub maximum_value: Scalar,
    pub default_value: Scalar,
    pub value: Scalar,
}

/// One part of a model: its identifier, its present opacity and the index
/// of the part that holds it.
#[derive(Clone, Debug)]
pub struct Live2DPart {
    pub id: String,
    pub opacitiy: Scalar,
    pub parent_part_index: i32,
}

/// Four components: a position with a depth and a weight, or a colour with
/// its opacity.
#[derive(Clone, Copy, Debug, PartialEq, Eq, Structural)]
pub struct Live2DVector4 {
    pub x: Scalar,
    pub y: Scalar,
    pub z: Scalar,
    pub w: Scalar,
}

impl Live2DVector4 {
    #[inline]
    pub fn x(&self) -> (r: Scalar)
        ensures
            r == self.x,
    {
        self.x
    }

    #[inline]
    pub fn y(&self) -> (r: Scalar)
        ensures
            r == self.y,
    {
        self.y
    }

    #[inline]
    pub fn z(&self) -> (r: Scalar)
        ensures
            r == self.z,
    {
        self.z
    }

    #[inline]
    pub fn w(&self) -> (r: Scalar)
        ensures
            r == self.w,
    {
        self.w
    }

    /// The red of a colour, its first component.
    #[inline]
    pub fn r(&self) -> (r: Scalar)
        ensures
            r == self.x,
    {
        self.x()
    }

    /// The green of a colour, its second component.
    #[inline]
    pub fn g(&self) -> (r: Scalar)
        ensures
            r == self.y,
    {
        self.y()
    }

    /// The blue of a colour, its third component.
    #[inline]
    pub fn b(&self) -> (r: Scalar)
        ensures
            r == self.z,
    {
        self.z()
    }

    /// The opacity of a colour, its fourth component.
    #[inline]
    pub fn a(&self) -> (r: Scalar)
        ensures
            r == self.w,
    {
        self.w()
    }
}

/// The canvas of a model.
#[derive(Clone, Copy, Debug)]
pub struct Live2DReadCanvasInfo {
    /// The size of the canvas.
    pub out_size_in_pixels: Live2DVector2,
    /// The centre of the canvas.
    pub out_origin_in_pixels: Live2DVector2,
    /// The size of one unit of the model.
    pub out_pixels_per_unit: Scalar,
}

/// The parameters, parts and drawables of a model, as the motion and
/// physics engines read and write them and as they are drawn.
#[derive(Clone, Debug)]
pub struct Live2DModelResource {
    pub parameters: Vec<Live2DParameter>,
    pub parts: Vec<Live2DPart>,
    pub drawables: Vec<Live2DDrawable>,
}

/// Whether `index` is the first place at which `id` stands in `ids`.
pub open spec fn is_first_index_of(ids: Seq<Seq<char>>, id: Seq<char>, index: int) -> bool {
    &&& 0 <= index < ids.len()
    &&& ids[index] == id
    &&& forall|j: int| 0 <= j < index ==> ids[j] != id
}

/// The first place at which `id` stands in `ids`, if it stands there at all.
pub open spec fn first_index_of(ids: Seq<Seq<char>>, id: Seq<char>) -> Option<int> {
    if exists|i: int| is_first_index_of(ids, id, i) {
        Some(choose|i: int| is_first_index_of(ids, id, i))
    } else {
        None
    }
}

/// An identifier has at most one first place.
pub proof fn lemma_first_index_is_unique(ids: Seq<Seq<char>>, id: Seq<char>, i: int, j: int)
    requires
        is_first_index_of(ids, id, i),
        is_first_index_of(ids, id, j),
    ensures
        i == j,
{
    if i < j {
        assert(ids[i] != id);
    } else if j < i {
        assert(ids[j] != id);
    }
}

/// `first_index_of` finds an identifier exactly where it occurs, and then at
/// its first place.
pub proof fn lemma_first_index_of(ids: Seq<Seq<char>>, id: Seq<char>)
    ensures
        match first_index_of(ids, id) {
            Some(i) => is_first_index_of(ids, id, i),
            None => forall|j: int| 0 <= j < ids.len() ==> ids[j] != id,
        },
{
    if first_index_of(ids, id) is None {
        assert forall|j: int| 0 <= j < ids.len() implies ids[j] != id by {
            if ids[j] == id {
                lemma_least_occurrence(ids, id, j);
            }
        }
    }
}

proof fn lemma_least_occurrence(ids: Seq<Seq<char>>, id: Seq<char>, j: int)
    requires
        0 <= j < ids.len(),
        ids[j] == id,
    ensures
        exists|i: int| is_first_index_of(ids, id, i),
    decreases j,
{
    if exists|k: int| 0 <= k < j && ids[k] == id {
        let k = choose|k: int| 0 <= k < j && ids[k] == id;
        lemma_least_occurrence(ids, id, k);
    } else {
        assert(is_first_index_of(ids, id, j));
    }
}

impl Live2DParameter {
    pub fn id(&self) -> (r: &String)
        ensures
            r@ == self.id@,
    {
        &self.id
    }

    pub fn minimum_value(&self) -> (r: Scalar)
        ensures
            r == self.minimum_value,
    {
        self.minimum_value
    }

    pub fn maximum_value(&self) -> (r: Scalar)
        ensures
            r == self.maximum_value,
    {
        self.maximum_value
    }

    pub fn default_value(&self) -> (r: Scalar)
        ensures
            r == self.default_value,
    {
        self.default_value
    }
}

impl Live2DPart {
    pub fn id(&self) -> (r: &String)
        ensures
            r@ == self.id@,
    {
        &self.id
    }

    pub fn opacitiy(&self) -> (r: Scalar)
        ensures
            r == self.opacitiy,
    {
        self.opacitiy
    }

    pub fn parent_part_index(&self) -> (r: i32)
        ensures
            r == self.parent_part_index,
    {
        self.parent_part_index
    }
}

impl Live2DModelResource {
    /// The identifiers of the parameters, in their order.
    pub open spec fn parameter_ids(&self) -> Seq<Seq<char>> {
        Seq::new(self.parameters@.len(), |i: int| self.parameters@[i].id@)
    }

    /// The present values of the parameters.
    pub open spec fn parameter_values(&self) -> Seq<Scalar> {
        Seq::new(self.parameters@.len(), |i: int| self.parameters@[i].value)
    }

    /// The least values that the model declares for its parameters.
    pub open spec fn parameter_minimum_values(&self) -> Seq<Scalar> {
        Seq::new(self.parameters@.len(), |i: int| self.parameters@[i].minimum_value)
    }

    /// The greatest values that the model declares for its parameters.
    pub open spec fn parameter_maximum_values(&self) -> Seq<Scalar> {
        Seq::new(self.parameters@.len(), |i: int| self.parameters@[i].maximum_value)
    }

    /// The default values that the model declares for its parameters.
    pub open spec fn parameter_default_values(&self) -> Seq<Scalar> {
        Seq::new(self.parameters@.len(), |i: int| self.parameters@[i].default_value)
    }

    /// The identifiers of the parts, in their order.
    pub open spec fn part_ids(&self) -> Seq<Seq<char>> {
        Seq::new(self.parts@.len(), |i: int| self.parts@[i].id@)
    }

    /// The present opacities of the parts.
    pub open spec fn part_opacities(&self) -> Seq<Scalar> {
        Seq::new(self.parts@.len(), |i: int| self.parts@[i].opacitiy)
    }

    /// The parent indices of the parts.
    pub open spec fn part_parent_part_indices(&self) -> Seq<i32> {
        Seq::new(self.parts@.len(), |i: int| self.parts@[i].parent_part_index)
    }

    /// The render orders of the drawables.
    pub open spec fn drawable_render_orders(&self) -> Seq<i32> {
        Seq::new(self.drawables@.len(), |i: int| self.drawables@[i].render_order)
    }

    /// Whether `other` is this model with other values and opacities: the
    /// same parameters and parts, with what the model declares of them.
    pub open spec fn same_declarations(&self, other: &Live2DModelResource) -> bool {
        &&& self.parameter_ids() == other.parameter_ids()
        &&& self.parameter_minimum_values() == other.parameter_minimum_values()
        &&& self.parameter_maximum_values() == other.parameter_maximum_values()
        &&& self.parameter_default_values() == other.parameter_default_values()
        &&& self.part_ids() == other.part_ids()
        &&& self.part_parent_part_indices() == other.part_parent_part_indices()
        &&& self.drawables == other.drawables
    }

    /// The number of parameters.
    pub fn csm_get_parameter_count(&self) -> (n: usize)
        ensures
            n == self.parameters@.len(),
    {
        self.parameters.len()
    }

    /// The number of parts.
    pub fn csm_get_part_count(&self) -> (n: usize)
        ensures
            n == self.parts@.len(),
    {
        self.parts.len()
    }

    /// The number of drawables.
    pub fn csm_get_drawable_count(&self) -> (n: usize)
        ensures
            n == self.drawables@.len(),
    {
        self.drawables.len()
    }

    /// The render orders of the drawables, as a list of their own.
    pub fn csm_get_drawable_render_orders(&self) -> (r: Vec<i32>)
        ensures
            r@ == self.drawable_render_orders(),
    {
        let n = self.drawables.len();
        let mut r: Vec<i32> = Vec::new();
        let mut i: usize = 0;
        while i < n
            invariant
                i <= n,
                n == self.drawables@.len(),
                r@ == self.drawable_render_orders().subrange(0, i as int),
            decreases n - i,
        {
            r.push(self.drawables[i].render_order);
            proof {
                assert(r@ =~= self.drawable_render_orders().subrange(0, i + 1));
            }
            i += 1;
        }
        proof {
            assert(r@ =~= self.drawable_render_orders());
        }
        r
    }

    /// The drawables, all of them, in their order.
    pub fn iter_drawables(&self) -> (r: &Vec<Live2DDrawable>)
        ensures
            r@ == self.drawables@,
    {
        &self.drawables
    }

    /// The numbers of the drawables in the order in which they are drawn:
    /// from the lowest render order to the highest, and of drawables with
    /// the same render order the one with the higher number first.
    pub fn iter_sorted_drawables(&self) -> (r: Vec<usize>)
        ensures
            is_draw_sequence(self.drawable_render_orders(), r@),
    {
        let orders = self.csm_get_drawable_render_orders();
        draw_sequence(&orders)
    }

    /// The parameters, all of them, in their order.
    pub fn iter_parameters(&self) -> (r: &Vec<Live2DParameter>)
        ensures
            r@ == self.parameters@,
    {
        &self.parameters
    }

    /// The parts, all of them, in their order.
    pub fn iter_parts(&self) -> (r: &Vec<Live2DPart>)
        ensures
            r@ == self.parts@,
    {
        &self.parts
    }

    /// The present values of the parameters, as a list of their own.
    pub fn csm_get_parameter_values(&self) -> (r: Vec<Scalar>)
        ensures
            r@ == self.parameter_values(),
    {
        let n = self.parameters.len();
        let mut r: Vec<Scalar> = Vec::new();
        let mut i: usize = 0;
        while i < n
            invariant
                i <= n,
                n == self.parameters@.len(),
                r@ == self.parameter_values().subrange(0, i as int),
            decreases n - i,
        {
            r.push(self.parameters[i].value);
            proof {
                assert(r@ =~= self.parameter_values().subrange(0, i + 1));
            }
            i += 1;
        }
        proof {
            assert(r@ =~= self.parameter_values());
        }
        r
    }

    /// The least values of the parameters, as a list of their own.
    pub fn csm_get_parameter_minimum_values(&self) -> (r: Vec<Scalar>)
        ensures
            r@ == self.parameter_minimum_values(),
    {
        let n = self.parameters.len();
        let mut r: Vec<Scalar> = Vec::new();
        let mut i: usize = 0;
        while i < n
            invariant
                i <= n,
                n == self.parameters@.len(),
                r@ == self.parameter_minimum_values().subrange(0, i as int),
            decreases n - i,
        {
            r.push(self.parameters[i].minimum_value);
            proof {
                assert(r@ =~= self.parameter_minimum_values().subrange(0, i + 1));
            }
            i += 1;
        }
        proof {
            assert(r@ =~= self.parameter_minimum_values());
        }
        r
    }

    /// The greatest values of the parameters, as a list of their own.
    pub fn csm_get_parameter_maximum_values(&self) -> (r: Vec<Scalar>)
        ensures
            r@ == self.parameter_maximum_values(),
    {
        let n = self.parameters.len();
        let mut r: Vec<Scalar> = Vec::new();
        let mut i: usize = 0;
        while i < n
            invariant
                i <= n,
                n == self.parameters@.len(),
                r@ == self.parameter_maximum_values().subrange(0, i as int),
            decreases n - i,
        {
            r.push(self.parameters[i].maximum_value);
            proof {
                assert(r@ =~= self.parameter_maximum_values().subrange(0, i + 1));
            }
            i += 1;
        }
        proof {
            assert(r@ =~= self.parameter_maximum_values());
        }
        r
    }

    /// The default values of the parameters, as a list of their own.
    pub fn csm_get_parameter_default_values(&self) -> (r: Vec<Scalar>)
        ensures
            r@ == self.parameter_default_values(),
    {
        let n = self.parameters.len();
        let mut r: Vec<Scalar> = Vec::new();
        let mut i: usize = 0;
        while i < n
            invariant
                i <= n,
                n == self.parameters@.len(),
                r@ == self.parameter_default_values().subrange(0, i as int),
            decreases n - i,
        {
            r.push(self.parameters[i].default_value);
            proof {
                assert(r@ =~= self.parameter_default_values().subrange(0, i + 1));
            }
            i += 1;
        }
        proof {
            assert(r@ =~= self.parameter_default_values());
        }
        r
    }

    /// The present opacities of the parts, as a list of their own.
    pub fn csm_get_part_opacities(&self) -> (r: Vec<Scalar>)
        ensures
            r@ == self.part_opacities(),
    {
        let n = self.parts.len();
        let mut r: Vec<Scalar> = Vec::new();
        let mut i: usize = 0;
        while i < n
            invariant
                i <= n,
                n == self.parts@.len(),
                r@ == self.part_opacities().subrange(0, i as int),
            decreases n - i,
        {
            r.push(self.parts[i].opacitiy);
            proof {
                assert(r@ =~= self.part_opacities().subrange(0, i + 1));
            }
            i += 1;
        }
        proof {
            assert(r@ =~= self.part_opacities());
        }
        r
    }

    /// The index of the parameter with the identifier `id`: the first one
    /// that carries it, and none where no parameter does.
    pub fn get_parameter_index(&self, id: &String) -> (r: Option<usize>)
        ensures
            r matches Some(i) ==> is_first_index_of(self.parameter_ids(), id@, i as int),
            r is None ==> forall|j: int|
                0 <= j < self.parameters@.len() ==> self.parameter_ids()[j] != id@,
            match r {
                Some(i) => first_index_of(self.parameter_ids(), id@) == Some(i as int),
                None => first_index_of(self.parameter_ids(), id@) is None,
            },
    {
        let mut i: usize = 0;
        let n = self.parameters.len();
        let mut found: Option<usize> = None;
        while i < n
            invariant_except_break
                found is None,
            invariant
                i <= n,
                n == self.parameters@.len(),
                forall|j: int| 0 <= j < i ==> self.parameter_ids()[j] != id@,
            ensures
                found matches Some(k) ==> is_first_index_of(self.parameter_ids(), id@, k as int),
                found is None ==> i == n,
            decreases n - i,
        {
            if self.parameters[i].id == *id {
                found = Some(i);
                break ;
            }
            i += 1;
        }
        proof {
            lemma_first_index_of(self.parameter_ids(), id@);
            match found {
                Some(k) => {
                    let m = first_index_of(self.parameter_ids(), id@)->0;
                    lemma_first_index_is_unique(self.parameter_ids(), id@, k as int, m);
                },
                None => {
                    if first_index_of(self.parameter_ids(), id@) is Some {
                        let m = first_index_of(self.parameter_ids(), id@)->0;
                        assert(self.parameter_ids()[m] == id@);
                    }
                },
            }
        }
        found
    }

    /// The index of the part with the identifier `id`: the first one that
    /// carries it, and none where no part does.
    pub fn get_part_index(&self, id: &String) -> (r: Option<usize>)
        ensures
            r matches Some(i) ==> is_first_index_of(self.part_ids(), id@, i as int),
            r is None ==> forall|j: int| 0 <= j < self.parts@.len() ==> self.part_ids()[j] != id@,
            match r {
                Some(i) => first_index_of(self.part_ids(), id@) == Some(i as int),
                None => first_index_of(self.part_ids(), id@) is None,
            },
    {
        let mut i: usize = 0;
        let n = self.parts.len();
        let mut found: Option<usize> = None;
        while i < n
            invariant_except_break
                found is None,
            invariant
                i <= n,
                n == self.parts@.len(),
                forall|j: int| 0 <= j < i ==> self.part_ids()[j] != id@,
            ensures
                found matches Some(k) ==> is_first_index_of(self.part_ids(), id@, k as int),
                found is None ==> i == n,
            decreases n - i,
        {
            if self.parts[i].id == *id {
                found = Some(i);
                break ;
            }
            i += 1;
        }
        proof {
            lemma_first_index_of(self.part_ids(), id@);
            match found {
                Some(k) => {
                    let m = first_index_of(self.part_ids(), id@)->0;
                    lemma_first_index_is_unique(self.part_ids(), id@, k as int, m);
                },
                None => {
                    if first_index_of(self.part_ids(), id@) is Some {
                        let m = first_index_of(self.part_ids(), id@)->0;
                        assert(self.part_ids()[m] == id@);
                    }
                },
            }
        }
        found
    }

    /// Sets the value of the parameter at `index` and leaves all else.
    pub fn set_parameter_value(&mut self, index: usize, value: Scalar)
        requires
            index < old(self).parameters@.len(),
        ensures
            final(self).parameter_values() == old(self).parameter_values().update(
                index as int,
                value,
            ),
            final(self).part_opacities() == old(self).part_opacities(),
            old(self).same_declarations(final(self)),
            final(self).parameters@.len() == old(self).parameters@.len(),
            final(self).parts@ == old(self).parts@,
    {
        self.parameters[index].value = value;
        proof {
            assert(final(self).parameter_values() =~= old(self).parameter_values().update(
                index as int,
                value,
            ));
            assert(final(self).parameter_ids() =~= old(self).parameter_ids());
            assert(final(self).parameter_minimum_values() =~= old(self).parameter_minimum_values());
            assert(final(self).parameter_maximum_values() =~= old(self).parameter_maximum_values());
            assert(final(self).parameter_default_values() =~= old(self).parameter_default_values());
        }
    }

    /// Sets the opacity of the part at `index` and leaves all else.
    pub fn set_part_opacity(&mut self, index: usize, value: Scalar)
        requires
            index < old(self).parts@.len(),
        ensures
            final(self).part_opacities() == old(self).part_opacities().update(index as int, value),
            final(self).parameter_values() == old(self).parameter_values(),
            old(self).same_declarations(final(self)),
            final(self).parts@.len() == old(self).parts@.len(),
            final(self).parameters@ == old(self).parameters@,
    {
        self.parts[index].opacitiy = value;
        proof {
            assert(final(self).part_opacities() =~= old(self).part_opacities().update(
                index as int,
                value,
            ));
            assert(final(self).part_ids() =~= old(self).part_ids());
            assert(final(self).part_parent_part_indices() =~= old(
                self,
            ).part_parent_part_indices());
        }
    }
}

} // verus!
