//! What holds of every record, every shape and every value.

use vstd::prelude::*;
use crate::assemble::{assemble, query_text, segment, segment_separator, segments};
use crate::encode::{fragment, renderings, survivors};
use crate::record::{EntryModel, Record};
use crate::shape::ShapeModel;
use crate::text::{
    all_empty,
    join,
    lemma_join_covers_part,
    lemma_separated_join,
    separated,
};
use crate::value::ValueModel;

verus! {

/// Whether a field is suppressed: it contributes nothing to the query.
pub open spec fn suppressed(field: EntryModel) -> bool {
    fragment(field.shape, field.value) is None
}

/// The form of a query that is not empty: `?`, then segments that are not
/// empty and hold no `&`, with one `&` between each two neighbours. In the
/// notation of regular expressions: `^\?[^&]+(&[^&]+)*$`.
pub open spec fn query_form(query: Seq<char>) -> bool {
    &&& query.len() >= 2
    &&& query[0] == '?'
    &&& separated(query.skip(1), segment_separator())
}

/// Where the segment of a field stands among the segments of its record:
/// behind the segments of the fields declared before it.
pub open spec fn position(fields: Seq<EntryModel>, index: int) -> int {
    segments(fields.take(index)).len() as int
}

/// The segments of a record are the segments of its leading fields followed
/// by the segments of the rest.
pub proof fn lemma_segments_concat(front: Seq<EntryModel>, back: Seq<EntryModel>)
    ensures
        segments(front + back) == segments(front) + segments(back),
    decreases back.len(),
{
    if back.len() == 0 {
        assert(front + back =~= front);
        assert(segments(front) + segments(back) =~= segments(front));
    } else {
        let whole = front + back;
        assert(whole.drop_last() =~= front + back.drop_last());
        assert(whole.last() == back.last());
        lemma_segments_concat(front, back.drop_last());
        assert(segments(whole) =~= segments(front) + segments(back));
    }
}

/// A record has at most one segment for each of its fields, and none at all
/// exactly when every field is suppressed.
pub proof fn lemma_segments_count(fields: Seq<EntryModel>)
    ensures
        segments(fields).len() <= fields.len(),
        segments(fields).len() == 0 <==> forall|i: int|
            0 <= i < fields.len() ==> suppressed(#[trigger] fields[i]),
    decreases fields.len(),
{
    if fields.len() > 0 {
        let front = fields.drop_last();
        lemma_segments_count(front);
        if forall|i: int| 0 <= i < fields.len() ==> suppressed(#[trigger] fields[i]) {
            assert forall|i: int| 0 <= i < front.len() implies suppressed(#[trigger] front[i]) by {
                assert(front[i] == fields[i]);
            }
            assert(suppressed(fields[fields.len() - 1]));
        }
        if segments(fields).len() == 0 {
            assert forall|i: int| 0 <= i < fields.len() implies suppressed(
                #[trigger] fields[i],
            ) by {
                if i < front.len() {
                    assert(front[i] == fields[i]);
                }
            }
        }
    }
}

/// A record whose fields are all suppressed has the empty query, and no
/// other record has it.
pub proof fn lemma_empty_query(fields: Seq<EntryModel>)
    ensures
        query_text(fields).len() == 0 <==> forall|i: int|
            0 <= i < fields.len() ==> suppressed(#[trigger] fields[i]),
{
    lemma_segments_count(fields);
}

/// A field of unsupported shape never contributes to a query.
pub proof fn lemma_unsupported_is_suppressed(value: ValueModel)
    ensures
        fragment(ShapeModel::Unsupported, value) is None,
{
}

/// A query that is not empty has the form `^\?[^&]+(&[^&]+)*$` exactly when
/// no segment begins or ends with `&` or holds `&&`. Names and texts are
/// never escaped, so a record whose segments do so has a query outside that
/// form.
pub proof fn lemma_query_form(fields: Seq<EntryModel>)
    requires
        query_text(fields).len() > 0,
    ensures
        query_form(query_text(fields)) <==> forall|k: int|
            0 <= k < segments(fields).len() ==> separated(
                #[trigger] segments(fields)[k],
                segment_separator(),
            ),
{
    let parts = segments(fields);
    let body = join(parts, segment_separator());
    lemma_separated_join(parts, segment_separator());
    assert(query_text(fields).skip(1) =~= body);
    if separated(body, segment_separator()) {
        assert(body.len() > 0);
    }
}

/// The segments of a record stand in the order in which its fields are
/// declared: of two fields that are not suppressed, the one declared first
/// has its segment first, each at the place that the fields before it leave.
pub proof fn lemma_declared_order_is_kept(fields: Seq<EntryModel>, first: int, second: int)
    requires
        0 <= first < second < fields.len(),
        !suppressed(fields[first]),
        !suppressed(fields[second]),
    ensures
        0 <= position(fields, first) < position(fields, second) < segments(fields).len(),
        segments(fields)[position(fields, first)] == segment(
            fields[first].name,
            fragment(fields[first].shape, fields[first].value)->0,
        ),
        segments(fields)[position(fields, second)] == segment(
            fields[second].name,
            fragment(fields[second].shape, fields[second].value)->0,
        ),
{
    lemma_segment_position(fields, first);
    lemma_segment_position(fields, second);
    let upto = fields.take(second);
    assert(upto.take(first) =~= fields.take(first));
    assert(upto[first] == fields[first]);
    lemma_segment_position(upto, first);
}

/// The segment of a field that is not suppressed stands behind the segments
/// of the fields declared before it.
pub proof fn lemma_segment_position(fields: Seq<EntryModel>, index: int)
    requires
        0 <= index < fields.len(),
        !suppressed(fields[index]),
    ensures
        0 <= position(fields, index) < segments(fields).len(),
        segments(fields)[position(fields, index)] == segment(
            fields[index].name,
            fragment(fields[index].shape, fields[index].value)->0,
        ),
{
    let front = fields.take(index);
    let one = seq![fields[index]];
    let back = fields.skip(index + 1);
    assert(fields =~= front + one + back);
    lemma_segments_concat(front + one, back);
    lemma_segments_concat(front, one);
    assert(one.drop_last() =~= Seq::<EntryModel>::empty());
    assert(one.last() == fields[index]);
    assert(segments(one.drop_last()).len() == 0);
    assert(segments(one).len() == 1);
}

/// A suppressed field leaves no trace: the query is that of the record
/// without the field.
pub proof fn lemma_suppressed_field_leaves_no_trace(fields: Seq<EntryModel>, index: int)
    requires
        0 <= index < fields.len(),
        suppressed(fields[index]),
    ensures
        segments(fields) == segments(fields.remove(index)),
        query_text(fields) == query_text(fields.remove(index)),
{
    let front = fields.take(index);
    let one = seq![fields[index]];
    let back = fields.skip(index + 1);
    assert(fields =~= front + one + back);
    assert(fields.remove(index) =~= front + back);
    lemma_segments_concat(front + one, back);
    lemma_segments_concat(front, one);
    lemma_segments_concat(front, back);
    assert(one.drop_last() =~= Seq::<EntryModel>::empty());
    assert(one.last() == fields[index]);
    assert(segments(one.drop_last()).len() == 0);
    assert(segments(one).len() == 0);
    assert(segments(front) + segments(one) =~= segments(front));
}

/// An absent optional and a null reference are both suppressed, whatever
/// they would have held.
pub proof fn lemma_absent_and_null_are_suppressed(optional: ShapeModel, reference: ShapeModel)
    requires
        optional is Optional,
        reference is Indirection,
    ensures
        fragment(optional, ValueModel::Optional(None)) is None,
        fragment(reference, ValueModel::Indirection(None)) is None,
{
}

/// An absent optional and a null reference cannot be told apart in the
/// output: two records that differ only in that one holds the first where
/// the other holds the second have the same query, which is the query of the
/// record without that field.
pub proof fn lemma_absence_and_nullity_are_alike(
    with_absent: Seq<EntryModel>,
    with_null: Seq<EntryModel>,
    index: int,
)
    requires
        with_absent.len() == with_null.len(),
        0 <= index < with_absent.len(),
        forall|k: int|
            0 <= k < with_absent.len() && k != index ==> with_absent[k] == with_null[k],
        with_absent[index].shape is Optional,
        with_absent[index].value == ValueModel::Optional(None),
        with_null[index].shape is Indirection,
        with_null[index].value == ValueModel::Indirection(None),
    ensures
        query_text(with_absent) == query_text(with_null),
        query_text(with_absent) == query_text(with_absent.remove(index)),
{
    lemma_suppressed_field_leaves_no_trace(with_absent, index);
    lemma_suppressed_field_leaves_no_trace(with_null, index);
    assert(with_absent.remove(index) =~= with_null.remove(index));
}

/// The elements of a sequence that are not suppressed are as many as the
/// elements at most, and none exactly when every element is suppressed.
pub proof fn lemma_survivors_count(inner: ShapeModel, items: Seq<ValueModel>)
    ensures
        survivors(inner, items).len() <= items.len(),
        survivors(inner, items).len() == 0 <==> forall|k: int|
            0 <= k < items.len() ==> fragment(inner, #[trigger] items[k]) is None,
    decreases items.len(),
{
    if items.len() > 0 {
        let front = items.drop_last();
        lemma_survivors_count(inner, front);
        if forall|k: int| 0 <= k < items.len() ==> fragment(inner, #[trigger] items[k]) is None {
            assert forall|k: int| 0 <= k < front.len() implies fragment(
                inner,
                #[trigger] front[k],
            ) is None by {
                assert(front[k] == items[k]);
            }
            assert(fragment(inner, items[items.len() - 1]) is None);
        }
        if survivors(inner, items).len() == 0 {
            assert forall|k: int| 0 <= k < items.len() implies fragment(
                inner,
                #[trigger] items[k],
            ) is None by {
                if k < front.len() {
                    assert(front[k] == items[k]);
                }
            }
        }
    }
}

/// A sequence is suppressed exactly when none of its elements is left once
/// the suppressed ones are taken out: a sequence of no elements, or of
/// absent, null or empty elements only.
pub proof fn lemma_sequence_without_survivors(
    inner: ShapeModel,
    fixed: bool,
    items: Seq<ValueModel>,
)
    ensures
        fragment(ShapeModel::Sequence(Box::new(inner), fixed), ValueModel::Sequence(items))
            is None <==> forall|k: int|
            0 <= k < items.len() ==> fragment(inner, #[trigger] items[k]) is None,
{
    lemma_survivors_count(inner, items);
}

/// Every element of a sequence that is not suppressed has a text that is
/// not empty.
proof fn lemma_survivors_are_not_empty(inner: ShapeModel, items: Seq<ValueModel>)
    ensures
        forall|k: int|
            0 <= k < survivors(inner, items).len() ==> (#[trigger] survivors(
                inner,
                items,
            )[k]).len() > 0,
    decreases inner, items.len() + 1,
{
    if items.len() > 0 {
        let rest = survivors(inner, items.drop_last());
        lemma_survivors_are_not_empty(inner, items.drop_last());
        lemma_fragment_is_not_empty(inner, items.last());
        assert forall|k: int| 0 <= k < survivors(inner, items).len() implies (#[trigger] survivors(
            inner,
            items,
        )[k]).len() > 0 by {
            if k < rest.len() {
                assert(survivors(inner, items)[k] == rest[k]);
            }
        }
    }
}

/// The text of a field that is not suppressed is never empty.
pub proof fn lemma_fragment_is_not_empty(shape: ShapeModel, value: ValueModel)
    ensures
        fragment(shape, value) matches Some(text) ==> text.len() > 0,
    decreases shape, 0nat,
{
    match shape {
        ShapeModel::Optional(inner) => match value {
            ValueModel::Optional(Some(content)) => {
                lemma_fragment_is_not_empty(*inner, *content);
            },
            _ => {},
        },
        ShapeModel::Indirection(inner) => match value {
            ValueModel::Indirection(Some(target)) => {
                lemma_fragment_is_not_empty(*inner, *target);
            },
            _ => {},
        },
        ShapeModel::Sequence(inner, _) => match value {
            ValueModel::Sequence(items) => {
                let parts = survivors(*inner, items);
                lemma_survivors_are_not_empty(*inner, items);
                if parts.len() > 0 {
                    lemma_join_covers_part(parts, ',', 0);
                    assert(parts[0].len() > 0);
                }
            },
            _ => {},
        },
        ShapeModel::Tuple(elements) => match value {
            ValueModel::Tuple(items) => {
                let parts = renderings(elements, items);
                if items.len() == elements.len() && !all_empty(parts) {
                    let k = choose|k: int| 0 <= k < parts.len() && (#[trigger] parts[k]).len() != 0;
                    lemma_join_covers_part(parts, ',', k);
                }
            },
            _ => {},
        },
        _ => {},
    }
}

/// Encoding only reads the record: whatever two calls of `assemble` on one
/// record return is the same text.
pub proof fn lemma_encoding_is_repeatable(record: &Record, first: String, second: String)
    requires
        call_ensures(assemble, (record,), first),
        call_ensures(assemble, (record,), second),
    ensures
        first@ == second@,
        first@ == query_text(record@),
{
}

} // verus!
