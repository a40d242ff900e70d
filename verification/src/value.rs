//! Field values: what a field of a record holds when it is encoded.

use vstd::prelude::*;
use vstd::string::StringExecFns;
use crate::shape::{FieldShape, ShapeModel};

verus! {

/// The mathematical model of a field value.
#[verifier::ext_equal]
pub enum ValueModel {
    /// The text that a scalar renders to.
    Scalar(Seq<char>),
    /// An optional: absent, or present with its content.
    Optional(Option<Box<ValueModel>>),
    /// The elements of a sequence, in order.
    Sequence(Seq<ValueModel>),
    /// The positions of a tuple, in order.
    Tuple(Seq<ValueModel>),
    /// A reference: null, or what it leads to.
    Indirection(Option<Box<ValueModel>>),
}

/// The value of one field. A scalar is held as the text that its own type
/// renders it to: the encoder never renders a scalar itself.
#[derive(Debug, PartialEq, Eq)]
pub enum FieldValue {
    /// The text that a scalar renders to.
    Scalar(String),
    /// An optional: absent, or present with its content.
    Optional(Option<Box<FieldValue>>),
    /// The elements of a sequence, in order.
    Sequence(Vec<FieldValue>),
    /// The positions of a tuple, in order.
    Tuple(Vec<FieldValue>),
    /// A reference: null, or what it leads to.
    Indirection(Option<Box<FieldValue>>),
}

/// The models of a run of values, position by position.
pub open spec fn value_models(values: Seq<FieldValue>) -> Seq<ValueModel>
    decreases values,
{
    Seq::new(
        values.len(),
        |i: int|
            if 0 <= i < values.len() {
                values[i].model()
            } else {
                ValueModel::Scalar(Seq::empty())
            },
    )
}

impl FieldValue {
    /// The model of this value.
    pub open spec fn model(&self) -> ValueModel
        decreases self,
    {
        match self {
            FieldValue::Scalar(text) => ValueModel::Scalar(text@),
            FieldValue::Optional(content) => ValueModel::Optional(
                match content {
                    Some(inner) => Some(Box::new(inner.model())),
                    None => None,
                },
            ),
            FieldValue::Sequence(items) => ValueModel::Sequence(value_models(items@)),
            FieldValue::Tuple(items) => ValueModel::Tuple(value_models(items@)),
            FieldValue::Indirection(target) => ValueModel::Indirection(
                match target {
                    Some(inner) => Some(Box::new(inner.model())),
                    None => None,
                },
            ),
        }
    }

    /// A scalar that renders to the given text.
    pub fn scalar(text: &str) -> (value: FieldValue)
        ensures
            value@ == ValueModel::Scalar(text@),
    {
        FieldValue::Scalar(String::from_str(text))
    }

    /// An optional that is present with the given content.
    pub fn present(content: FieldValue) -> (value: FieldValue)
        ensures
            value@ == ValueModel::Optional(Some(Box::new(content@))),
    {
        FieldValue::Optional(Some(Box::new(content)))
    }

    /// An optional that is absent.
    pub fn absent() -> (value: FieldValue)
        ensures
            value@ == ValueModel::Optional(None),
    {
        FieldValue::Optional(None)
    }

    /// A reference that leads to the given value.
    pub fn pointing_to(target: FieldValue) -> (value: FieldValue)
        ensures
            value@ == ValueModel::Indirection(Some(Box::new(target@))),
    {
        FieldValue::Indirection(Some(Box::new(target)))
    }

    /// A null reference.
    pub fn null() -> (value: FieldValue)
        ensures
            value@ == ValueModel::Indirection(None),
    {
        FieldValue::Indirection(None)
    }
}

impl View for FieldValue {
    type V = ValueModel;

    open spec fn view(&self) -> ValueModel {
        self.model()
    }
}

/// Whether a value is of a shape: what a field of that shape can hold.
pub open spec fn admits(shape: ShapeModel, value: ValueModel) -> bool
    decreases shape,
{
    match shape {
        ShapeModel::Scalar => value is Scalar,
        ShapeModel::Optional(inner) => match value {
            ValueModel::Optional(Some(content)) => admits(*inner, *content),
            ValueModel::Optional(None) => true,
            _ => false,
        },
        ShapeModel::Sequence(inner, _) => match value {
            ValueModel::Sequence(items) => forall|k: int|
                0 <= k < items.len() ==> admits(*inner, #[trigger] items[k]),
            _ => false,
        },
        ShapeModel::Tuple(elements) => match value {
            ValueModel::Tuple(items) => items.len() == elements.len() && forall|k: int|
                0 <= k < elements.len() ==> admits(#[trigger] elements[k], items[k]),
            _ => false,
        },
        ShapeModel::Indirection(inner) => match value {
            ValueModel::Indirection(Some(target)) => admits(*inner, *target),
            ValueModel::Indirection(None) => true,
            _ => false,
        },
        ShapeModel::Unsupported => false,
    }
}

/// Whether a value is of a shape.
#[verifier::loop_isolation(false)]
pub fn conforms(shape: &FieldShape, value: &FieldValue) -> (r: bool)
    ensures
        r == admits(shape@, value@),
    decreases shape,
{
    proof {
        reveal_with_fuel(FieldShape::model, 2);
        reveal_with_fuel(FieldValue::model, 2);
    }
    match shape {
        FieldShape::Scalar => match value {
            FieldValue::Scalar(_) => true,
            _ => false,
        },
        FieldShape::Optional(inner) => match value {
            FieldValue::Optional(Some(content)) => conforms(inner, content),
            FieldValue::Optional(None) => true,
            _ => false,
        },
        FieldShape::Sequence(inner, _) => match value {
            FieldValue::Sequence(items) => {
                let mut k: usize = 0;
                while k < items.len()
                    invariant
                        k <= items.len(),
                        forall|j: int|
                            0 <= j < k ==> admits(inner@, #[trigger] value_models(items@)[j]),
                    decreases items.len() - k,
                {
                    if !conforms(inner, &items[k]) {
                        assert(!admits(inner@, value@->Sequence_0[k as int]));
                        return false;
                    }
                    k += 1;
                }
                true
            },
            _ => false,
        },
        FieldShape::Tuple(elements) => match value {
            FieldValue::Tuple(items) => {
                if items.len() != elements.len() {
                    return false;
                }
                let mut k: usize = 0;
                while k < elements.len()
                    invariant
                        k <= elements.len(),
                        items.len() == elements.len(),
                        forall|j: int|
                            0 <= j < k ==> admits(
                                #[trigger] shape@->Tuple_0[j],
                                value_models(items@)[j],
                            ),
                    decreases elements.len() - k,
                {
                    proof {
                        assert(decreases_to!(shape->Tuple_0 => shape->Tuple_0[k as int]));
                    }
                    if !conforms(&elements[k], &items[k]) {
                        assert(!admits(shape@->Tuple_0[k as int], value@->Tuple_0[k as int]));
                        return false;
                    }
                    k += 1;
                }
                true
            },
            _ => false,
        },
        FieldShape::Indirection(inner) => match value {
            FieldValue::Indirection(Some(target)) => conforms(inner, target),
            FieldValue::Indirection(None) => true,
            _ => false,
        },
        FieldShape::Unsupported => false,
    }
}

} // verus!
