//! The encoder: from a shape and a value of it to the text of the field, or
//! to nothing where the field is suppressed.

use vstd::prelude::*;
use vstd::string::StringExecFns;
use crate::shape::{shape_models, FieldShape, ShapeModel};
use crate::text::{all_empty, join, lemma_join_push};
use crate::value::{value_models, FieldValue, ValueModel};

verus! {

/// The character between the elements of a sequence or of a tuple.
pub open spec fn element_separator() -> char {
    ','
}

/// A text, unless it is empty.
pub open spec fn unless_empty(text: Seq<char>) -> Option<Seq<char>> {
    if text.len() == 0 {
        None
    } else {
        Some(text)
    }
}

/// The text of a sequence from the texts of the elements that were not
/// suppressed: nothing where none is left.
pub open spec fn sequence_text(survivors: Seq<Seq<char>>) -> Option<Seq<char>> {
    if survivors.len() == 0 {
        None
    } else {
        Some(join(survivors, element_separator()))
    }
}

/// The text of a tuple from the texts of its positions: nothing where every
/// position is empty.
pub open spec fn tuple_text(renderings: Seq<Seq<char>>) -> Option<Seq<char>> {
    if all_empty(renderings) {
        None
    } else {
        Some(join(renderings, element_separator()))
    }
}

/// What a field of the given shape and value contributes: its text, or
/// nothing where the field is suppressed. A value that is not of the shape
/// contributes nothing.
pub open spec fn fragment(shape: ShapeModel, value: ValueModel) -> Option<Seq<char>>
    decreases shape, 0nat,
{
    match shape {
        ShapeModel::Scalar => match value {
            ValueModel::Scalar(text) => unless_empty(text),
            _ => None,
        },
        ShapeModel::Optional(inner) => match value {
            ValueModel::Optional(Some(content)) => fragment(*inner, *content),
            _ => None,
        },
        ShapeModel::Sequence(inner, _) => match value {
            ValueModel::Sequence(items) => sequence_text(survivors(*inner, items)),
            _ => None,
        },
        ShapeModel::Tuple(elements) => match value {
            ValueModel::Tuple(items) => if items.len() == elements.len() {
                tuple_text(renderings(elements, items))
            } else {
                None
            },
            _ => None,
        },
        ShapeModel::Indirection(inner) => match value {
            ValueModel::Indirection(Some(target)) => fragment(*inner, *target),
            _ => None,
        },
        ShapeModel::Unsupported => None,
    }
}

/// The texts of the elements of a sequence that are not suppressed, in the
/// order of the elements.
pub open spec fn survivors(inner: ShapeModel, items: Seq<ValueModel>) -> Seq<Seq<char>>
    decreases inner, items.len() + 1,
{
    if items.len() == 0 {
        Seq::empty()
    } else {
        let rest = survivors(inner, items.drop_last());
        match fragment(inner, items.last()) {
            Some(text) => rest.push(text),
            None => rest,
        }
    }
}

/// The text at one position of a tuple: a suppressed position renders empty.
pub open spec fn rendering(text: Option<Seq<char>>) -> Seq<char> {
    match text {
        Some(text) => text,
        None => Seq::empty(),
    }
}

/// The texts of all positions of a tuple, one for each position.
pub open spec fn renderings(elements: Seq<ShapeModel>, items: Seq<ValueModel>) -> Seq<Seq<char>>
    decreases elements, 0nat,
{
    Seq::new(
        elements.len(),
        |k: int|
            if 0 <= k < elements.len() {
                rendering(fragment(elements[k], items[k]))
            } else {
                Seq::empty()
            },
    )
}

/// The text that an encoded field holds, if it holds one.
pub open spec fn text_of(encoded: Option<String>) -> Option<Seq<char>> {
    match encoded {
        Some(text) => Some(text@),
        None => None,
    }
}

/// Encodes a scalar from its rendered text.
pub fn encode_scalar(text: &String) -> (encoded: Option<String>)
    ensures
        text_of(encoded) == unless_empty(text@),
{
    if text.as_str().is_empty() {
        None
    } else {
        Some(text.clone())
    }
}

/// Encodes a sequence from the shape of its elements and the elements.
pub fn encode_sequence(inner: &FieldShape, items: &Vec<FieldValue>) -> (encoded: Option<String>)
    ensures
        text_of(encoded) == sequence_text(survivors(inner@, value_models(items@))),
    decreases inner, 1nat,
{
    let ghost all = value_models(items@);
    let mut out = String::new();
    let mut any = false;
    let mut k: usize = 0;
    while k < items.len()
        invariant
            k <= items.len(),
            all == value_models(items@),
            out@ == join(survivors(inner@, all.take(k as int)), element_separator()),
            any == (survivors(inner@, all.take(k as int)).len() > 0),
        decreases items.len() - k,
    {
        let ghost before = survivors(inner@, all.take(k as int));
        let element = encode(inner, &items[k]);
        proof {
            assert(all.take(k + 1).drop_last() =~= all.take(k as int));
            assert(all.take(k + 1).last() == items[k as int]@);
        }
        match element {
            Some(text) => {
                proof {
                    lemma_join_push(before, text@, element_separator());
                    reveal_strlit(",");
                    assert(","@ =~= seq![element_separator()]);
                }
                if any {
                    out.append(",");
                }
                out.append(text.as_str());
                any = true;
            },
            None => {},
        }
        k += 1;
    }
    assert(all.take(k as int) =~= all);
    if any {
        Some(out)
    } else {
        None
    }
}

/// Encodes a tuple from the shapes of its positions and their values.
pub fn encode_tuple(elements: &Vec<FieldShape>, items: &Vec<FieldValue>) -> (encoded: Option<
    String,
>)
    ensures
        text_of(encoded) == if items.len() == elements.len() {
            tuple_text(renderings(shape_models(elements@), value_models(items@)))
        } else {
            None
        },
    decreases elements, 1nat,
{
    if items.len() != elements.len() {
        return None;
    }
    let ghost all = renderings(shape_models(elements@), value_models(items@));
    let mut out = String::new();
    let mut any = false;
    let mut k: usize = 0;
    while k < elements.len()
        invariant
            k <= elements.len(),
            items.len() == elements.len(),
            all == renderings(shape_models(elements@), value_models(items@)),
            all.len() == elements.len(),
            out@ == join(all.take(k as int), element_separator()),
            any == !all_empty(all.take(k as int)),
        decreases elements.len() - k,
    {
        proof {
            assert(decreases_to!(elements => elements[k as int]));
        }
        let element = encode(&elements[k], &items[k]);
        proof {
            assert(all[k as int] == rendering(text_of(element)));
            assert(all.take(k + 1) =~= all.take(k as int).push(all[k as int]));
            lemma_join_push(all.take(k as int), all[k as int], element_separator());
            reveal_strlit(",");
            assert(","@ =~= seq![element_separator()]);
        }
        if k > 0 {
            out.append(",");
        }
        match element {
            Some(text) => {
                out.append(text.as_str());
                if !text.as_str().is_empty() {
                    any = true;
                }
            },
            None => {
                assert(out@ + Seq::<char>::empty() =~= out@);
            },
        }
        proof {
            let shorter = all.take(k as int);
            let longer = all.take(k + 1);
            if all_empty(longer) {
                assert forall|j: int| 0 <= j < shorter.len() implies (#[trigger] shorter[j]).len()
                    == 0 by {
                    assert(longer[j] == shorter[j]);
                }
            }
            if !all_empty(shorter) {
                let j = choose|j: int| 0 <= j < shorter.len() && (#[trigger] shorter[j]).len() != 0;
                assert(longer[j] == shorter[j]);
            }
            if all[k as int].len() != 0 {
                assert(longer[k as int] == all[k as int]);
            }
        }
        k += 1;
    }
    assert(all.take(k as int) =~= all);
    if any {
        Some(out)
    } else {
        None
    }
}

/// What one field contributes to a query: its name as the key, and its text.
#[derive(Debug, PartialEq, Eq)]
pub struct EncodedFragment {
    pub key: String,
    pub value: String,
}

/// Encodes one field under its name: the fragment of the field, or nothing
/// where the field is suppressed. The key is the name as it is declared.
pub fn encode_field(name: &str, shape: &FieldShape, value: &FieldValue) -> (encoded: Option<
    EncodedFragment,
>)
    ensures
        match encoded {
            Some(produced) => produced.key@ == name@ && fragment(shape@, value@) == Some(
                produced.value@,
            ),
            None => fragment(shape@, value@) is None,
        },
{
    match encode(shape, value) {
        Some(text) => Some(EncodedFragment { key: String::from_str(name), value: text }),
        None => None,
    }
}

/// Encodes one field: its text, or nothing where the field is suppressed.
pub fn encode(shape: &FieldShape, value: &FieldValue) -> (encoded: Option<String>)
    ensures
        text_of(encoded) == fragment(shape@, value@),
    decreases shape, 0nat,
{
    proof {
        reveal_with_fuel(FieldValue::model, 2);
    }
    match shape {
        FieldShape::Scalar => match value {
            FieldValue::Scalar(text) => encode_scalar(text),
            _ => None,
        },
        FieldShape::Optional(inner) => match value {
            FieldValue::Optional(Some(content)) => encode(inner, content),
            _ => None,
        },
        FieldShape::Sequence(inner, _) => match value {
            FieldValue::Sequence(items) => encode_sequence(inner, items),
            _ => None,
        },
        FieldShape::Tuple(elements) => match value {
            FieldValue::Tuple(items) => {
                encode_tuple(elements, items)
            },
            _ => None,
        },
        FieldShape::Indirection(inner) => match value {
            FieldValue::Indirection(Some(target)) => encode(inner, target),
            _ => None,
        },
        FieldShape::Unsupported => None,
    }
}

} // verus!
