//! Comma-separated fields: how the text of a request divides.

use vstd::prelude::*;

verus! {

/// The character that separates the fields of a request.
pub const SEPARATOR: char = ',';

/// No character of `text` is the separator.
pub open spec fn separator_free(text: Seq<char>) -> bool {
    forall|i: int| 0 <= i < text.len() ==> text[i] != SEPARATOR
}

/// The fields of `text`, read from left to right: the text starts out as one
/// empty field, a separator opens a new empty field, and any other character
/// joins the field that is open. A text without separators is one field; an
/// empty text is one empty field.
pub open spec fn split_fields(text: Seq<char>) -> Seq<Seq<char>>
    decreases text.len(),
{
    if text.len() == 0 {
        seq![Seq::<char>::empty()]
    } else {
        let before = split_fields(text.drop_last());
        if text.last() == SEPARATOR {
            before.push(Seq::<char>::empty())
        } else {
            before.update(before.len() - 1, before.last().push(text.last()))
        }
    }
}

/// The fields written out one after another, with a separator between each
/// two neighbours.
pub open spec fn join_fields(fields: Seq<Seq<char>>) -> Seq<char>
    decreases fields.len(),
{
    if fields.len() == 0 {
        Seq::<char>::empty()
    } else if fields.len() == 1 {
        fields[0]
    } else {
        join_fields(fields.drop_last()) + seq![SEPARATOR] + fields.last()
    }
}

/// The texts that a vector of strings holds.
pub open spec fn texts(fields: Seq<String>) -> Seq<Seq<char>> {
    fields.map_values(|field: String| field@)
}

/// A text always has at least one field.
pub proof fn lemma_split_nonempty(text: Seq<char>)
    ensures
        split_fields(text).len() >= 1,
    decreases text.len(),
{
    if text.len() > 0 {
        lemma_split_nonempty(text.drop_last());
    }
}

/// Appending text without a separator only lengthens the last field.
pub proof fn lemma_split_append(text: Seq<char>, tail: Seq<char>)
    requires
        separator_free(tail),
    ensures
        split_fields(text).len() >= 1,
        split_fields(text + tail) == split_fields(text).update(
            split_fields(text).len() - 1,
            split_fields(text).last() + tail,
        ),
    decreases tail.len(),
{
    lemma_split_nonempty(text);
    let fields = split_fields(text);
    if tail.len() == 0 {
        assert(text + tail =~= text);
        assert(fields.last() + tail =~= fields.last());
        assert(fields.update(fields.len() - 1, fields.last()) =~= fields);
    } else {
        let shorter = tail.drop_last();
        lemma_split_append(text, shorter);
        assert((text + tail).drop_last() =~= text + shorter);
        assert((text + tail).last() == tail.last());
        assert(tail.last() == tail[tail.len() - 1]);
        let before = split_fields(text + shorter);
        assert(before.last() == fields.last() + shorter);
        assert((fields.last() + shorter).push(tail.last()) =~= fields.last() + tail);
        assert(before.update(before.len() - 1, before.last().push(tail.last())) =~= fields.update(
            fields.len() - 1,
            fields.last() + tail,
        ));
    }
}

/// Splitting undoes joining: where no field holds a separator, the fields of
/// the joined text are the fields that were joined.
pub proof fn lemma_split_join(fields: Seq<Seq<char>>)
    requires
        fields.len() >= 1,
        forall|i: int| 0 <= i < fields.len() ==> separator_free(#[trigger] fields[i]),
    ensures
        split_fields(join_fields(fields)) == fields,
    decreases fields.len(),
{
    let empty = Seq::<char>::empty();
    if fields.len() == 1 {
        lemma_split_append(empty, fields[0]);
        assert(empty + fields[0] =~= fields[0]);
        assert(split_fields(empty) =~= seq![empty]);
        assert(seq![empty].update(0, empty + fields[0]) =~= fields);
    } else {
        let front = fields.drop_last();
        assert forall|i: int| 0 <= i < front.len() implies separator_free(#[trigger] front[i]) by {
            assert(front[i] == fields[i]);
        }
        lemma_split_join(front);
        let opened = join_fields(front) + seq![SEPARATOR];
        assert(opened.drop_last() =~= join_fields(front));
        assert(opened.last() == SEPARATOR);
        assert(split_fields(opened) == front.push(empty));
        lemma_split_append(opened, fields.last());
        assert(empty + fields.last() =~= fields.last());
        assert(front.push(empty).update(front.len() as int, fields.last()) =~= fields);
    }
}

/// Joining undoes splitting: no field of a text holds a separator, and the
/// fields joined give the text back.
pub proof fn lemma_join_split(text: Seq<char>)
    ensures
        split_fields(text).len() >= 1,
        forall|i: int|
            0 <= i < split_fields(text).len() ==> separator_free(#[trigger] split_fields(text)[i]),
        join_fields(split_fields(text)) == text,
    decreases text.len(),
{
    let fields = split_fields(text);
    if text.len() == 0 {
        assert(join_fields(fields) =~= text);
    } else {
        let shorter = text.drop_last();
        let before = split_fields(shorter);
        lemma_join_split(shorter);
        if text.last() == SEPARATOR {
            assert(fields.drop_last() =~= before);
            assert(join_fields(fields) =~= text);
        } else {
            let last = before.last().push(text.last());
            assert(forall|i: int| 0 <= i < before.len() - 1 ==> fields[i] == before[i]);
            if before.len() == 1 {
                assert(join_fields(before) == before[0]);
                assert(join_fields(fields) =~= text);
            } else {
                assert(fields.drop_last() =~= before.drop_last());
                assert(join_fields(before) == join_fields(before.drop_last()) + seq![SEPARATOR]
                    + before.last());
                assert(join_fields(fields) =~= join_fields(before).push(text.last()));
                assert(join_fields(fields) =~= text);
            }
        }
    }
}

/// The fields of `text`, each as a string of its own.
pub fn split(text: &str) -> (fields: Vec<String>)
    ensures
        texts(fields@) == split_fields(text@),
{
    let len = text.unicode_len();
    let mut fields: Vec<String> = Vec::new();
    let mut start: usize = 0;
    let mut pos: usize = 0;
    proof {
        assert(text@.take(0) =~= Seq::<char>::empty());
        assert(texts(fields@).push(text@.subrange(0, 0)) =~= seq![Seq::<char>::empty()]);
    }
    for c in it: text.chars()
        invariant
            it.seq() == text@,
            len == text@.len(),
            pos == it.index(),
            start <= pos,
            split_fields(text@.take(pos as int)) == texts(fields@).push(
                text@.subrange(start as int, pos as int),
            ),
    {
        let ghost seen = text@.take(pos as int);
        let ghost next = text@.take(pos + 1);
        let ghost open = text@.subrange(start as int, pos as int);
        proof {
            assert(next.drop_last() =~= seen);
            assert(next.last() == c);
        }
        if c == SEPARATOR {
            let field = text.substring_char(start, pos).to_owned();
            let ghost closed = texts(fields@);
            fields.push(field);
            start = pos + 1;
            proof {
                assert(texts(fields@) =~= closed.push(open));
                assert(text@.subrange(pos + 1, pos + 1) =~= Seq::<char>::empty());
            }
        } else {
            proof {
                let before = texts(fields@).push(open);
                assert(open.push(c) =~= text@.subrange(start as int, pos + 1));
                assert(before.update(before.len() - 1, before.last().push(c)) =~= texts(
                    fields@,
                ).push(text@.subrange(start as int, pos + 1)));
            }
        }
        pos = pos + 1;
    }
    let field = text.substring_char(start, pos).to_owned();
    let ghost closed = texts(fields@);
    fields.push(field);
    proof {
        assert(text@.take(pos as int) =~= text@);
        assert(texts(fields@) =~= closed.push(text@.subrange(start as int, pos as int)));
    }
    fields
}

} // verus!
