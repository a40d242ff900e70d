//! Field shapes: the structural form of a field's type, independent of the
//! scalar type found at its leaves.

use vstd::prelude::*;

verus! {

/// The mathematical model of a field shape.
#[verifier::ext_equal]
pub enum ShapeModel {
    /// A single value that renders as text.
    Scalar,
    /// A value that is present or absent.
    Optional(Box<ShapeModel>),
    /// An ordered collection of like elements; the flag tells a statically
    /// sized collection from a dynamically sized one.
    Sequence(Box<ShapeModel>, bool),
    /// A fixed number of positions, each with a shape of its own.
    Tuple(Seq<ShapeModel>),
    /// A nullable reference to another shape.
    Indirection(Box<ShapeModel>),
    /// Anything outside the closed set above.
    Unsupported,
}

impl ShapeModel {
    /// What is left once every leading layer of indirection is taken away.
    pub open spec fn pointee(self) -> ShapeModel
        decreases self,
    {
        match self {
            ShapeModel::Indirection(inner) => inner.pointee(),
            _ => self,
        }
    }

    /// A scalar, or a reference to one: what a tuple may hold at a position.
    pub open spec fn is_scalar_like(self) -> bool {
        match self {
            ShapeModel::Scalar => true,
            ShapeModel::Indirection(inner) => *inner is Scalar,
            _ => false,
        }
    }

    /// What a sequence may hold: a scalar, a reference to one, or an
    /// optional one.
    pub open spec fn is_element(self) -> bool {
        match self {
            ShapeModel::Scalar => true,
            ShapeModel::Indirection(inner) => *inner is Scalar,
            ShapeModel::Optional(inner) => *inner is Scalar,
            _ => false,
        }
    }

    /// The shapes that can be encoded.
    pub open spec fn supported(self) -> bool
        decreases self,
    {
        match self {
            ShapeModel::Scalar => true,
            ShapeModel::Optional(inner) => inner.supported() && !(inner.pointee() is Optional),
            ShapeModel::Sequence(inner, _) => inner.is_element(),
            ShapeModel::Tuple(elements) => forall|i: int|
                0 <= i < elements.len() ==> (#[trigger] elements[i]).is_scalar_like(),
            ShapeModel::Indirection(inner) => inner.supported(),
            ShapeModel::Unsupported => false,
        }
    }
}

/// The shape of a field as the encoder holds it.
#[derive(Debug, PartialEq, Eq)]
pub enum FieldShape {
    /// A single value that renders as text.
    Scalar,
    /// A value that is present or absent.
    Optional(Box<FieldShape>),
    /// An ordered collection of like elements, statically sized where the
    /// flag is set.
    Sequence(Box<FieldShape>, bool),
    /// A fixed number of positions, each with a shape of its own.
    Tuple(Vec<FieldShape>),
    /// A nullable reference to another shape.
    Indirection(Box<FieldShape>),
    /// Anything outside the closed set above.
    Unsupported,
}

/// The models of a run of shapes, position by position.
pub open spec fn shape_models(shapes: Seq<FieldShape>) -> Seq<ShapeModel>
    decreases shapes,
{
    Seq::new(
        shapes.len(),
        |i: int|
            if 0 <= i < shapes.len() {
                shapes[i].model()
            } else {
                ShapeModel::Unsupported
            },
    )
}

impl FieldShape {
    /// The model of this shape.
    pub open spec fn model(&self) -> ShapeModel
        decreases self,
    {
        match self {
            FieldShape::Scalar => ShapeModel::Scalar,
            FieldShape::Optional(inner) => ShapeModel::Optional(Box::new(inner.model())),
            FieldShape::Sequence(inner, fixed) => ShapeModel::Sequence(
                Box::new(inner.model()),
                *fixed,
            ),
            FieldShape::Tuple(elements) => ShapeModel::Tuple(shape_models(elements@)),
            FieldShape::Indirection(inner) => ShapeModel::Indirection(Box::new(inner.model())),
            FieldShape::Unsupported => ShapeModel::Unsupported,
        }
    }

    /// Whether the shape is a scalar or a reference to one.
    pub fn is_scalar_like(&self) -> (r: bool)
        ensures
            r == self@.is_scalar_like(),
    {
        proof {
            reveal_with_fuel(FieldShape::model, 2);
        }
        match self {
            FieldShape::Scalar => true,
            FieldShape::Indirection(inner) => match **inner {
                FieldShape::Scalar => true,
                _ => false,
            },
            _ => false,
        }
    }

    /// Whether a sequence may hold elements of this shape.
    pub fn is_element(&self) -> (r: bool)
        ensures
            r == self@.is_element(),
    {
        proof {
            reveal_with_fuel(FieldShape::model, 2);
        }
        match self {
            FieldShape::Scalar => true,
            FieldShape::Indirection(inner) => match **inner {
                FieldShape::Scalar => true,
                _ => false,
            },
            FieldShape::Optional(inner) => match **inner {
                FieldShape::Scalar => true,
                _ => false,
            },
            _ => false,
        }
    }

    /// Whether an optional lies under the leading layers of indirection.
    pub fn wraps_optional(&self) -> (r: bool)
        ensures
            r == (self@.pointee() is Optional),
        decreases self,
    {
        match self {
            FieldShape::Indirection(inner) => inner.wraps_optional(),
            FieldShape::Optional(_) => true,
            _ => false,
        }
    }

    /// Whether the shape can be encoded.
    pub fn is_supported(&self) -> (r: bool)
        ensures
            r == self@.supported(),
        decreases self,
    {
        proof {
            reveal_with_fuel(FieldShape::model, 2);
        }
        match self {
            FieldShape::Scalar => true,
            FieldShape::Optional(inner) => inner.is_supported() && !inner.wraps_optional(),
            FieldShape::Sequence(inner, _) => inner.is_element(),
            FieldShape::Tuple(elements) => {
                let mut i: usize = 0;
                while i < elements.len()
                    invariant
                        i <= elements.len(),
                        self@ == ShapeModel::Tuple(shape_models(elements@)),
                        forall|k: int|
                            0 <= k < i ==> (#[trigger] shape_models(elements@)[k]).is_scalar_like(),
                    decreases elements.len() - i,
                {
                    if !elements[i].is_scalar_like() {
                        assert(!self@->Tuple_0[i as int].is_scalar_like());
                        return false;
                    }
                    i += 1;
                }
                true
            },
            FieldShape::Indirection(inner) => inner.is_supported(),
            FieldShape::Unsupported => false,
        }
    }
}

impl View for FieldShape {
    type V = ShapeModel;

    open spec fn view(&self) -> ShapeModel {
        self.model()
    }
}

} // verus!
