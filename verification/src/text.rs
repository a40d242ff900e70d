//! Joining pieces of text with a separator.

use vstd::prelude::*;

verus! {

/// The parts in order, with the separator between each two neighbours.
pub open spec fn join(parts: Seq<Seq<char>>, separator: char) -> Seq<char>
    decreases parts.len(),
{
    if parts.len() == 0 {
        Seq::empty()
    } else if parts.len() == 1 {
        parts[0]
    } else {
        join(parts.drop_last(), separator) + seq![separator] + parts.last()
    }
}

/// Whether every part is the empty text.
pub open spec fn all_empty(parts: Seq<Seq<char>>) -> bool {
    forall|k: int| 0 <= k < parts.len() ==> (#[trigger] parts[k]).len() == 0
}

/// Joining one more part appends it, after a separator unless it is the first.
pub proof fn lemma_join_push(parts: Seq<Seq<char>>, part: Seq<char>, separator: char)
    ensures
        join(parts.push(part), separator) == if parts.len() == 0 {
            part
        } else {
            join(parts, separator) + seq![separator] + part
        },
{
    assert(parts.push(part).drop_last() =~= parts);
    assert(parts.push(part).last() == part);
}

/// Whether a text can stand between separators: it is not empty, neither
/// begins nor ends with the separator, and holds no two separators in a row.
pub open spec fn separated(text: Seq<char>, separator: char) -> bool {
    &&& text.len() > 0
    &&& text[0] != separator
    &&& text.last() != separator
    &&& forall|i: int|
        0 <= i < text.len() - 1 ==> !(#[trigger] text[i] == separator && text[i + 1] == separator)
}

/// Two texts with one separator between them can stand between separators
/// exactly when each of the two can.
pub proof fn lemma_separated_concat(front: Seq<char>, back: Seq<char>, separator: char)
    ensures
        separated(front + seq![separator] + back, separator) <==> separated(front, separator)
            && separated(back, separator),
{
    let whole = front + seq![separator] + back;
    let n = front.len() as int;
    assert(whole[n] == separator);
    if separated(front, separator) && separated(back, separator) {
        assert forall|i: int| 0 <= i < whole.len() - 1 implies !(#[trigger] whole[i] == separator
            && whole[i + 1] == separator) by {
            if i + 1 < n {
                assert(whole[i + 1] == front[i + 1]);
            } else if i + 1 == n {
                assert(whole[i] == front.last());
            } else if i == n {
                assert(whole[i + 1] == back[0]);
            } else {
                assert(whole[i] == back[i - n - 1]);
                assert(whole[i + 1] == back[i - n]);
            }
        }
        assert(whole.last() == back.last());
    }
    if separated(whole, separator) {
        if n == 0 {
            assert(whole[0] == separator);
        }
        if back.len() == 0 {
            assert(whole.last() == separator);
        }
        assert(whole.last() == back.last());
        assert(whole[n - 1] == front.last());
        assert(whole[n + 1] == back[0]);
        assert forall|i: int| 0 <= i < front.len() - 1 implies !(#[trigger] front[i] == separator
            && front[i + 1] == separator) by {
            assert(whole[i] == front[i]);
            assert(whole[i + 1] == front[i + 1]);
        }
        assert forall|i: int| 0 <= i < back.len() - 1 implies !(#[trigger] back[i] == separator
            && back[i + 1] == separator) by {
            assert(whole[n + 1 + i] == back[i]);
            assert(whole[n + 1 + i + 1] == back[i + 1]);
        }
    }
}

/// The join of one part or more can stand between separators exactly when
/// every part can.
pub proof fn lemma_separated_join(parts: Seq<Seq<char>>, separator: char)
    requires
        parts.len() > 0,
    ensures
        separated(join(parts, separator), separator) <==> forall|k: int|
            0 <= k < parts.len() ==> separated(#[trigger] parts[k], separator),
    decreases parts.len(),
{
    if parts.len() > 1 {
        let front = parts.drop_last();
        lemma_separated_join(front, separator);
        lemma_separated_concat(join(front, separator), parts.last(), separator);
        if forall|k: int| 0 <= k < parts.len() ==> separated(#[trigger] parts[k], separator) {
            assert forall|k: int| 0 <= k < front.len() implies separated(
                #[trigger] front[k],
                separator,
            ) by {
                assert(front[k] == parts[k]);
            }
        }
        if separated(join(parts, separator), separator) {
            assert forall|k: int| 0 <= k < parts.len() implies separated(
                #[trigger] parts[k],
                separator,
            ) by {
                if k < front.len() {
                    assert(front[k] == parts[k]);
                }
            }
        }
    }
}

/// The join is at least as long as each of its parts.
pub proof fn lemma_join_covers_part(parts: Seq<Seq<char>>, separator: char, k: int)
    requires
        0 <= k < parts.len(),
    ensures
        join(parts, separator).len() >= parts[k].len(),
    decreases parts.len(),
{
    if parts.len() > 1 && k < parts.len() - 1 {
        lemma_join_covers_part(parts.drop_last(), separator, k);
    }
}

} // verus!
