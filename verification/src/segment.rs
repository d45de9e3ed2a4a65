//! Cutting the visited text of a document into one raw block per exercise.

use vstd::prelude::*;
use vstd::string::*;
use crate::dom::{visit_all, visited_prefix, DomNode};
use crate::markup::SEPARATOR;
use crate::text::{
    contains, find_from, joined, lemma_find_contains, lemma_joined_front, lemma_split_joins,
    lemma_split_len, occurs_at, split, split_from, str_contains, str_split, views,
};

verus! {

/// The visited text of the content nodes, in document order.
pub open spec fn stream_of(nodes: Seq<DomNode>) -> Seq<char> {
    visited_prefix(nodes, nodes.len() as int)
}

/// The text with a separator put in front unless it already holds one.
pub open spec fn delimited(stream: Seq<char>) -> Seq<char> {
    if contains(stream, SEPARATOR@) {
        stream
    } else {
        SEPARATOR@ + stream
    }
}

/// The raw blocks of a visited text: the pieces between separators, without
/// the piece before the first separator.
pub open spec fn blocks_of(stream: Seq<char>) -> Seq<Seq<char>> {
    let parts = split(delimited(stream), SEPARATOR@);
    parts.subrange(1, parts.len() as int)
}

/// A delimited text holds a separator, so it splits into at least two pieces
/// and leaves at least one block.
pub proof fn lemma_at_least_one_block(stream: Seq<char>)
    ensures
        contains(delimited(stream), SEPARATOR@),
        split(delimited(stream), SEPARATOR@).len() >= 2,
        blocks_of(stream).len() >= 1,
{
    reveal_strlit("-----");
    let d = delimited(stream);
    if !contains(stream, SEPARATOR@) {
        assert(occurs_at(d, SEPARATOR@, 0));
    }
    lemma_find_contains(d, SEPARATOR@);
    lemma_split_len(d, SEPARATOR@, 0);
}

/// A document without content gives one block, and that block is empty.
pub proof fn lemma_empty_document()
    ensures
        blocks_of(stream_of(Seq::<DomNode>::empty())) == seq![Seq::<char>::empty()],
{
    reveal_strlit("-----");
    let sep = SEPARATOR@;
    let none = Seq::<char>::empty();
    assert(stream_of(Seq::<DomNode>::empty()) == none);
    assert(!contains(none, sep));
    assert(delimited(none) =~= sep);
    assert(occurs_at(sep, sep, 0));
    assert(find_from(sep, sep, 0) == Some(0int));
    assert(find_from(sep, sep, 5) is None);
    assert(sep.subrange(5, 5) =~= none);
    assert(sep.subrange(0, 0) =~= none);
    assert(split_from(sep, sep, 5) =~= seq![none]);
    assert(split_from(sep, sep, 0) =~= seq![none, none]);
    assert(blocks_of(none) =~= seq![none]);
}

/// The delimited text is the discarded first piece, a separator, and the
/// blocks joined by separators: cutting loses nothing but that piece.
pub proof fn lemma_blocks_rebuild(stream: Seq<char>)
    ensures
        delimited(stream) == split(delimited(stream), SEPARATOR@)[0] + SEPARATOR@ + joined(
            blocks_of(stream),
            SEPARATOR@,
        ),
{
    let d = delimited(stream);
    let parts = split(d, SEPARATOR@);
    lemma_at_least_one_block(stream);
    lemma_split_joins(d, SEPARATOR@, 0);
    assert(parts =~= seq![parts[0]] + blocks_of(stream));
    lemma_joined_front(parts[0], blocks_of(stream), SEPARATOR@);
    assert(d.subrange(0, d.len() as int) =~= d);
}

/// Delimiting a text that is already delimited changes nothing.
pub proof fn lemma_delimited_idempotent(stream: Seq<char>)
    ensures
        delimited(delimited(stream)) == delimited(stream),
{
    lemma_at_least_one_block(stream);
}

/// The piece before the first separator is dropped whatever it holds: the
/// blocks are the pieces after it, in order.
pub proof fn lemma_first_piece_discarded(stream: Seq<char>, i: int)
    requires
        0 <= i < blocks_of(stream).len(),
    ensures
        blocks_of(stream).len() == split(delimited(stream), SEPARATOR@).len() - 1,
        blocks_of(stream)[i] == split(delimited(stream), SEPARATOR@)[i + 1],
{
    lemma_at_least_one_block(stream);
}

/// Visits the content nodes in order and makes sure that the text holds a
/// separator.
pub fn linearize(nodes: &Vec<DomNode>) -> (r: String)
    ensures
        r@ == delimited(stream_of(nodes@)),
{
    let stream = visit_all(nodes);
    if str_contains(stream.as_str(), SEPARATOR) {
        stream
    } else {
        let mut out = String::new();
        out.append(SEPARATOR);
        out.append(stream.as_str());
        assert(out@ =~= SEPARATOR@ + stream@);
        out
    }
}

/// Splits a delimited text on the separator and drops the first piece.
pub fn cut_blocks(text: &str) -> (r: Vec<String>)
    ensures
        views(r@) == split(text@, SEPARATOR@).subrange(
            1,
            split(text@, SEPARATOR@).len() as int,
        ),
{
    proof {
        reveal_strlit("-----");
        lemma_split_len(text@, SEPARATOR@, 0);
    }
    let mut parts = str_split(text, SEPARATOR);
    let ghost all = parts@;
    let first = parts.remove(0);
    assert(views(parts@) =~= views(all).subrange(1, all.len() as int));
    parts
}

/// The raw exercise blocks of a document, from its content nodes: at least
/// one, even where no node names an exercise.
pub fn segment(nodes: &Vec<DomNode>) -> (r: Vec<String>)
    ensures
        views(r@) == blocks_of(stream_of(nodes@)),
        r@.len() >= 1,
{
    let text = linearize(nodes);
    proof {
        lemma_at_least_one_block(stream_of(nodes@));
    }
    let r = cut_blocks(text.as_str());
    assert(views(r@).len() == r@.len());
    r
}

} // verus!
