//! The query assembler: from a record to its query string.

use vstd::prelude::*;
use vstd::string::StringExecFns;
use crate::encode::{encode_field, fragment};
use crate::record::{EntryModel, Record};
use crate::text::{join, lemma_join_push};

verus! {

/// The character between two segments of a query.
pub open spec fn segment_separator() -> char {
    '&'
}

/// The segment of a field that is not suppressed: its name, `=`, its text.
pub open spec fn segment(name: Seq<char>, text: Seq<char>) -> Seq<char> {
    name + seq!['='] + text
}

/// The segments of the fields that are not suppressed, in the order in which
/// the fields are declared.
pub open spec fn segments(fields: Seq<EntryModel>) -> Seq<Seq<char>>
    decreases fields.len(),
{
    if fields.len() == 0 {
        Seq::empty()
    } else {
        let rest = segments(fields.drop_last());
        let last = fields.last();
        match fragment(last.shape, last.value) {
            Some(text) => rest.push(segment(last.name, text)),
            None => rest,
        }
    }
}

/// The query string of a record: empty where every field is suppressed,
/// else `?` and the segments with `&` between each two neighbours.
pub open spec fn query_text(fields: Seq<EntryModel>) -> Seq<char> {
    let parts = segments(fields);
    if parts.len() == 0 {
        Seq::empty()
    } else {
        seq!['?'] + join(parts, segment_separator())
    }
}

/// Assembles the query string of a record in one pass over its fields.
pub fn assemble(record: &Record) -> (query: String)
    ensures
        query@ == query_text(record@),
{
    let count = record.len();
    let mut query = String::new();
    let mut any = false;
    let mut i: usize = 0;
    while i < count
        invariant
            i <= count,
            count == record@.len(),
            query@ == query_text(record@.take(i as int)),
            any == (segments(record@.take(i as int)).len() > 0),
        decreases count - i,
    {
        let ghost before = segments(record@.take(i as int));
        proof {
            assert(record@.take(i + 1).drop_last() =~= record@.take(i as int));
            assert(record@.take(i + 1).last() == record@[i as int]);
        }
        match encode_field(record.name(i).as_str(), record.shape(i), record.value(i)) {
            Some(produced) => {
                let ghost part = segment(produced.key@, produced.value@);
                proof {
                    lemma_join_push(before, part, segment_separator());
                    reveal_strlit("?");
                    reveal_strlit("&");
                    reveal_strlit("=");
                    assert("?"@ =~= seq!['?']);
                    assert("&"@ =~= seq![segment_separator()]);
                    assert("="@ =~= seq!['=']);
                }
                if any {
                    query.append("&");
                } else {
                    query.append("?");
                }
                query.append(produced.key.as_str());
                query.append("=");
                query.append(produced.value.as_str());
                any = true;
                assert(query@ =~= query_text(record@.take(i + 1)));
            },
            None => {},
        }
        i += 1;
    }
    assert(record@.take(i as int) =~= record@);
    query
}

/// What can be turned into a URL query string.
pub trait QueryParams {
    /// The query string of this value: empty, or `?` and then `name=value`
    /// segments with `&` between each two neighbours.
    fn to_query_params(&self) -> String;
}

impl<'a> QueryParams for Record<'a> {
    fn to_query_params(&self) -> (query: String)
        ensures
            query@ == query_text(self@),
    {
        assemble(self)
    }
}

} // verus!
