//! The markup that the visitor itself puts in is well nested: every block
//! that it opens for a node is closed before the visit of that node ends.

use vstd::prelude::*;
use crate::dom::{cut_from, lemma_cut_from, visited, visited_prefix, DomNode, NodeKind};
use crate::markup::{
    separator_line, BEGIN_ITEMIZE, BEGIN_QUESTION, CUE_EXERCISE, END_ITEMIZE, END_QUESTION, ITEM,
    NEWLINE,
};
use crate::text::contains;

verus! {

/// The two blocks that the visitor opens and closes.
pub enum Span {
    Question,
    Itemize,
}

/// What the visitor writes, piece by piece: the opening or closing of a
/// block, or text that it passes on.
pub enum Piece {
    Open(Span),
    Close(Span),
    Plain(Seq<char>),
}

/// The text of one piece.
pub open spec fn piece_text(p: Piece) -> Seq<char> {
    match p {
        Piece::Open(Span::Question) => BEGIN_QUESTION@,
        Piece::Open(Span::Itemize) => BEGIN_ITEMIZE@,
        Piece::Close(Span::Question) => END_QUESTION@,
        Piece::Close(Span::Itemize) => END_ITEMIZE@,
        Piece::Plain(t) => t,
    }
}

/// The text of the pieces, one after the other.
pub open spec fn rendered(ps: Seq<Piece>) -> Seq<char>
    decreases ps.len(),
{
    if ps.len() == 0 {
        Seq::<char>::empty()
    } else {
        rendered(ps.drop_last()) + piece_text(ps.last())
    }
}

/// The blocks that are open after one more piece, innermost last; `None` if
/// the piece closes a block that is not the innermost open one.
pub open spec fn after_piece(open: Seq<Span>, p: Piece) -> Option<Seq<Span>> {
    match p {
        Piece::Open(k) => Some(open.push(k)),
        Piece::Close(k) => if open.len() > 0 && open.last() == k {
            Some(open.drop_last())
        } else {
            None
        },
        Piece::Plain(_) => Some(open),
    }
}

/// The blocks that are open after the pieces, starting from `open`; `None`
/// if some piece closes a block out of turn.
pub open spec fn after_pieces(open: Seq<Span>, ps: Seq<Piece>) -> Option<Seq<Span>>
    decreases ps.len(),
{
    if ps.len() == 0 {
        Some(open)
    } else {
        match after_pieces(open, ps.drop_last()) {
            Some(then) => after_piece(then, ps.last()),
            None => None,
        }
    }
}

/// Every block is closed in turn and none stays open.
pub open spec fn well_nested(ps: Seq<Piece>) -> bool {
    after_pieces(Seq::<Span>::empty(), ps) == Some(Seq::<Span>::empty())
}

/// The pieces that the visitor writes for the first `k` nodes.
pub open spec fn pieces_prefix(nodes: Seq<DomNode>, k: int) -> Seq<Piece>
    decreases nodes, k,
{
    if k <= 0 || k > nodes.len() {
        Seq::<Piece>::empty()
    } else {
        pieces_prefix(nodes, k - 1) + pieces(nodes[k - 1])
    }
}

/// The pieces that the visitor writes for a node.
pub open spec fn pieces(node: DomNode) -> Seq<Piece>
    decreases node, 0int,
{
    let kids = node.children@;
    let lead = if node.kind() == NodeKind::Block {
        NEWLINE@
    } else {
        Seq::<char>::empty()
    };
    match node.kind() {
        NodeKind::OrderedList => seq![Piece::Open(Span::Question)] + pieces_prefix(
            kids,
            kids.len() as int,
        ) + seq![Piece::Close(Span::Question)],
        NodeKind::UnorderedList => seq![Piece::Open(Span::Itemize)] + pieces_prefix(
            kids,
            kids.len() as int,
        ) + seq![Piece::Close(Span::Itemize)],
        NodeKind::ListItem => seq![Piece::Plain(ITEM@ + node.own_text())] + pieces_prefix(
            kids,
            kids.len() as int,
        ) + seq![Piece::Plain(NEWLINE@)],
        NodeKind::LineBreak => seq![Piece::Plain(NEWLINE@)],
        _ => if node.is_underlined_title() {
            seq![Piece::Plain(separator_line())]
        } else if contains(node.own_text(), CUE_EXERCISE@) {
            seq![Piece::Plain(lead + separator_line())]
        } else {
            seq![Piece::Plain(lead + node.own_text())] + pieces_prefix(kids, cut_from(kids, 0))
        },
    }
}

/// One piece alone.
pub proof fn lemma_single(open: Seq<Span>, p: Piece)
    ensures
        rendered(seq![p]) == piece_text(p),
        after_pieces(open, seq![p]) == after_piece(open, p),
{
    let one = seq![p];
    assert(one.drop_last() =~= Seq::<Piece>::empty());
    assert(rendered(one.drop_last()) =~= Seq::<char>::empty());
    assert(after_pieces(open, one.drop_last()) == Some(open));
    assert(rendered(one) =~= piece_text(p));
}

/// Pieces put one after the other give their texts one after the other, and
/// the second run goes on from the blocks that the first left open.
pub proof fn lemma_concat(open: Seq<Span>, a: Seq<Piece>, b: Seq<Piece>)
    ensures
        rendered(a + b) == rendered(a) + rendered(b),
        after_pieces(open, a + b) == match after_pieces(open, a) {
            Some(then) => after_pieces(then, b),
            None => None,
        },
    decreases b.len(),
{
    if b.len() == 0 {
        assert(a + b =~= a);
        assert(rendered(a + b) =~= rendered(a) + rendered(b));
    } else {
        lemma_concat(open, a, b.drop_last());
        assert((a + b).drop_last() =~= a + b.drop_last());
        assert((a + b).last() == b.last());
        assert(rendered(a + b) =~= rendered(a) + rendered(b));
    }
}

/// The pieces of the first `k` nodes render to their visited text and leave
/// open exactly the blocks that were open before.
pub proof fn lemma_prefix_nested(nodes: Seq<DomNode>, k: int, open: Seq<Span>)
    requires
        0 <= k <= nodes.len(),
    ensures
        rendered(pieces_prefix(nodes, k)) == visited_prefix(nodes, k),
        after_pieces(open, pieces_prefix(nodes, k)) == Some(open),
    decreases nodes, k,
{
    if k > 0 {
        lemma_prefix_nested(nodes, k - 1, open);
        lemma_node_nested(nodes[k - 1], open);
        lemma_concat(open, pieces_prefix(nodes, k - 1), pieces(nodes[k - 1]));
    }
}

/// The pieces of a node render to its visited text and leave open exactly
/// the blocks that were open before: what the visit of a node opens, it
/// closes, innermost first.
pub proof fn lemma_node_nested(node: DomNode, open: Seq<Span>)
    ensures
        rendered(pieces(node)) == visited(node),
        after_pieces(open, pieces(node)) == Some(open),
    decreases node, 1int,
{
    let kids = node.children@;
    let n = kids.len() as int;
    match node.kind() {
        NodeKind::OrderedList => {
            let inner = open.push(Span::Question);
            lemma_wrapped(
                node,
                open,
                Piece::Open(Span::Question),
                Piece::Close(Span::Question),
                inner,
            );
            assert(inner.drop_last() =~= open);
        },
        NodeKind::UnorderedList => {
            let inner = open.push(Span::Itemize);
            lemma_wrapped(
                node,
                open,
                Piece::Open(Span::Itemize),
                Piece::Close(Span::Itemize),
                inner,
            );
            assert(inner.drop_last() =~= open);
        },
        NodeKind::ListItem => {
            lemma_wrapped(
                node,
                open,
                Piece::Plain(ITEM@ + node.own_text()),
                Piece::Plain(NEWLINE@),
                open,
            );
        },
        NodeKind::LineBreak => {
            lemma_single(open, Piece::Plain(NEWLINE@));
        },
        _ => {
            let lead = if node.kind() == NodeKind::Block {
                NEWLINE@
            } else {
                Seq::<char>::empty()
            };
            if node.is_underlined_title() {
                lemma_single(open, Piece::Plain(separator_line()));
            } else if contains(node.own_text(), CUE_EXERCISE@) {
                lemma_single(open, Piece::Plain(lead + separator_line()));
            } else {
                let head = Piece::Plain(lead + node.own_text());
                lemma_cut_from(kids, 0);
                let c = cut_from(kids, 0);
                lemma_single(open, head);
                lemma_prefix_nested(kids, c, open);
                lemma_concat(open, seq![head], pieces_prefix(kids, c));
            }
        },
    }
}

/// A first piece, the pieces of all the children of a node, and a last piece.
proof fn lemma_wrapped(node: DomNode, open: Seq<Span>, first: Piece, last: Piece, inner: Seq<Span>)
    requires
        after_piece(open, first) == Some(inner),
    ensures
        rendered(
            seq![first] + pieces_prefix(node.children@, node.children@.len() as int) + seq![last],
        ) == piece_text(first) + visited_prefix(node.children@, node.children@.len() as int)
            + piece_text(last),
        after_pieces(
            open,
            seq![first] + pieces_prefix(node.children@, node.children@.len() as int) + seq![last],
        ) == after_piece(inner, last),
    decreases node, 0int,
{
    let kids = node.children@;
    let mid = pieces_prefix(kids, kids.len() as int);
    lemma_single(open, first);
    lemma_single(inner, last);
    lemma_prefix_nested(kids, kids.len() as int, inner);
    lemma_concat(open, seq![first], mid);
    lemma_concat(open, seq![first] + mid, seq![last]);
}

/// The pieces that the visitor writes for a node are well nested, and their
/// text is the visited text of the node.
pub proof fn lemma_visit_well_nested(node: DomNode)
    ensures
        well_nested(pieces(node)),
        rendered(pieces(node)) == visited(node),
{
    lemma_node_nested(node, Seq::<Span>::empty());
}

} // verus!
