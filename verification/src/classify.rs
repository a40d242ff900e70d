//! The shape classifier: from a declared type to the shape of the field.

use vstd::prelude::*;
use vstd::string::StringExecFns;
use crate::shape::{shape_models, FieldShape, ShapeModel};
use crate::types::{TypeDesc, TypeModel};

verus! {

/// The name under which an optional value is declared.
pub open spec fn option_name() -> Seq<char> {
    "Option"@
}

/// The name under which a dynamically sized list is declared.
pub open spec fn vec_name() -> Seq<char> {
    "Vec"@
}

/// The shape of an optional whose content has the given shape. An optional
/// directly inside another, or separated from it by references alone, has no
/// shape.
pub open spec fn optional_shape(inner: ShapeModel) -> ShapeModel {
    if inner.supported() && !(inner.pointee() is Optional) {
        ShapeModel::Optional(Box::new(inner))
    } else {
        ShapeModel::Unsupported
    }
}

/// The shape of a sequence whose elements have the given shape.
pub open spec fn sequence_shape(inner: ShapeModel, fixed: bool) -> ShapeModel {
    if inner.is_element() {
        ShapeModel::Sequence(Box::new(inner), fixed)
    } else {
        ShapeModel::Unsupported
    }
}

/// The shape of a tuple whose positions have the given shapes.
pub open spec fn tuple_shape(elements: Seq<ShapeModel>) -> ShapeModel {
    if forall|i: int| 0 <= i < elements.len() ==> (#[trigger] elements[i]).is_scalar_like() {
        ShapeModel::Tuple(elements)
    } else {
        ShapeModel::Unsupported
    }
}

/// The shape of a reference to something of the given shape.
pub open spec fn indirection_shape(inner: ShapeModel) -> ShapeModel {
    if inner.supported() {
        ShapeModel::Indirection(Box::new(inner))
    } else {
        ShapeModel::Unsupported
    }
}

/// The shape that a declared type classifies to.
pub open spec fn shape_of(ty: TypeModel) -> ShapeModel
    decreases ty,
{
    match ty {
        TypeModel::Named { name, argument, renders } => {
            if name == option_name() {
                match argument {
                    Some(inner) => optional_shape(shape_of(*inner)),
                    None => ShapeModel::Unsupported,
                }
            } else if name == vec_name() {
                match argument {
                    Some(inner) => sequence_shape(shape_of(*inner), false),
                    None => ShapeModel::Unsupported,
                }
            } else if renders {
                ShapeModel::Scalar
            } else {
                ShapeModel::Unsupported
            }
        },
        TypeModel::Array(element) => sequence_shape(shape_of(*element), true),
        TypeModel::Slice(element) => sequence_shape(shape_of(*element), false),
        TypeModel::Tuple(elements) => tuple_shape(shapes_of(elements)),
        TypeModel::Pointer(target) => indirection_shape(shape_of(*target)),
        TypeModel::Reference(target) => indirection_shape(shape_of(*target)),
        TypeModel::Other => ShapeModel::Unsupported,
    }
}

/// The shapes that a run of declared types classify to, position by position.
pub open spec fn shapes_of(types: Seq<TypeModel>) -> Seq<ShapeModel>
    decreases types,
{
    Seq::new(
        types.len(),
        |i: int|
            if 0 <= i < types.len() {
                shape_of(types[i])
            } else {
                ShapeModel::Unsupported
            },
    )
}

/// A declared type classifies to a supported shape, or to `Unsupported` as a
/// whole: never to a shape with an unsupported part.
pub proof fn lemma_shape_of_is_supported(ty: TypeModel)
    ensures
        shape_of(ty) is Unsupported || shape_of(ty).supported(),
{
}

/// Whether a type is declared under the name of the optional.
pub fn is_option(name: &String) -> (r: bool)
    ensures
        r == (name@ == option_name()),
{
    let expected = String::from_str("Option");
    *name == expected
}

/// Whether a type is declared under the name of the dynamically sized list.
pub fn is_vec(name: &String) -> (r: bool)
    ensures
        r == (name@ == vec_name()),
{
    let expected = String::from_str("Vec");
    *name == expected
}

/// Classifies an optional from the shape of its content.
pub fn classify_optional(inner: FieldShape) -> (shape: FieldShape)
    ensures
        shape@ == optional_shape(inner@),
{
    if inner.is_supported() && !inner.wraps_optional() {
        FieldShape::Optional(Box::new(inner))
    } else {
        FieldShape::Unsupported
    }
}

/// Classifies a sequence from the shape of its elements.
pub fn classify_sequence(inner: FieldShape, fixed: bool) -> (shape: FieldShape)
    ensures
        shape@ == sequence_shape(inner@, fixed),
{
    if inner.is_element() {
        FieldShape::Sequence(Box::new(inner), fixed)
    } else {
        FieldShape::Unsupported
    }
}

/// Classifies a tuple from the shapes of its positions.
pub fn classify_tuple(elements: Vec<FieldShape>) -> (shape: FieldShape)
    ensures
        shape@ == tuple_shape(shape_models(elements@)),
{
    let mut i: usize = 0;
    while i < elements.len()
        invariant
            i <= elements.len(),
            forall|k: int| 0 <= k < i ==> (#[trigger] shape_models(elements@)[k]).is_scalar_like(),
        decreases elements.len() - i,
    {
        if !elements[i].is_scalar_like() {
            assert(!shape_models(elements@)[i as int].is_scalar_like());
            return FieldShape::Unsupported;
        }
        i += 1;
    }
    FieldShape::Tuple(elements)
}

/// Classifies a pointer or a reference from the shape of what it leads to.
pub fn classify_indirection(inner: FieldShape) -> (shape: FieldShape)
    ensures
        shape@ == indirection_shape(inner@),
{
    if inner.is_supported() {
        FieldShape::Indirection(Box::new(inner))
    } else {
        FieldShape::Unsupported
    }
}

/// Classifies a declared type. The result is a supported shape, or
/// `Unsupported` as a whole: never a shape with an unsupported part.
pub fn classify(ty: &TypeDesc) -> (shape: FieldShape)
    ensures
        shape@ == shape_of(ty@),
        shape@ is Unsupported || shape@.supported(),
    decreases ty,
{
    proof {
        reveal_with_fuel(TypeDesc::model, 2);
        lemma_shape_of_is_supported(ty@);
    }
    match ty {
        TypeDesc::Named { name, argument, renders } => {
            if is_option(name) {
                match argument {
                    Some(inner) => classify_optional(classify(inner)),
                    None => FieldShape::Unsupported,
                }
            } else if is_vec(name) {
                match argument {
                    Some(inner) => classify_sequence(classify(inner), false),
                    None => FieldShape::Unsupported,
                }
            } else if *renders {
                FieldShape::Scalar
            } else {
                FieldShape::Unsupported
            }
        },
        TypeDesc::Array(element) => classify_sequence(classify(element), true),
        TypeDesc::Slice(element) => classify_sequence(classify(element), false),
        TypeDesc::Tuple(elements) => {
            let mut shapes: Vec<FieldShape> = Vec::new();
            let mut i: usize = 0;
            while i < elements.len()
                invariant
                    i <= elements.len(),
                    shapes.len() == i,
                    ty == TypeDesc::Tuple(*elements),
                    forall|k: int| 0 <= k < i ==> (#[trigger] shapes[k])@ == shape_of(elements[k]@),
                decreases elements.len() - i,
            {
                proof {
                    assert(decreases_to!(ty->Tuple_0 => ty->Tuple_0[i as int]));
                }
                let shape = classify(&elements[i]);
                shapes.push(shape);
                i += 1;
            }
            assert(shape_models(shapes@) =~= shapes_of(ty@->Tuple_0));
            classify_tuple(shapes)
        },
        TypeDesc::Pointer(target) => classify_indirection(classify(target)),
        TypeDesc::Reference(target) => classify_indirection(classify(target)),
        TypeDesc::Other => FieldShape::Unsupported,
    }
}

} // verus!
