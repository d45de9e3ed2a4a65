//! The whole conversion: header, segmentation, reconstruction of each block
//! and assembly of the finished exercises.

use vstd::prelude::*;
use vstd::string::*;
use crate::dom::DomNode;
use crate::header::{build_header, header_text};
use crate::markup::EXERCISE_CLOSE;
use crate::rewrite::{first_rejected, reconstruct, reconstructed, PatternError};
use crate::segment::{blocks_of, segment, stream_of};
use crate::text::views;

verus! {

/// One finished exercise: the header, the reconstructed body and the closing
/// marker.
pub open spec fn finished(header: Seq<char>, body: Seq<char>) -> Seq<char> {
    header + body + EXERCISE_CLOSE@
}

/// The first `k` blocks, each reconstructed and finished, one after the
/// other.
pub open spec fn assembled(header: Seq<char>, blocks: Seq<Seq<char>>, k: int) -> Seq<char>
    decreases k,
{
    if k <= 0 || k > blocks.len() {
        Seq::<char>::empty()
    } else {
        assembled(header, blocks, k - 1) + finished(header, reconstructed(blocks[k - 1]))
    }
}

/// Puts the header before a reconstructed body and the closing marker after.
pub fn finish(header: &str, body: &str) -> (r: String)
    ensures
        r@ == finished(header@, body@),
{
    let mut out = String::new();
    out.append(header);
    out.append(body);
    out.append(EXERCISE_CLOSE);
    assert(out@ =~= finished(header@, body@));
    out
}

/// Reconstructs every block, finishes it with the shared header, and joins
/// the exercises in their order. With no block there is nothing to rewrite
/// and the result is empty; otherwise the call fails exactly when a rewrite
/// pattern is rejected, with the first such rewrite.
pub fn assemble(header: &str, blocks: &Vec<String>) -> (r: Result<String, PatternError>)
    ensures
        r is Ok <==> (blocks@.len() == 0 || first_rejected() is None),
        r matches Ok(t) ==> t@ == assembled(header@, views(blocks@), blocks@.len() as int),
        r matches Err(e) ==> first_rejected() == Some(e.step),
{
    let n: usize = blocks.len();
    let mut out = String::new();
    let mut i: usize = 0;
    while i < n
        invariant
            n == blocks@.len(),
            i <= n,
            i > 0 ==> first_rejected() is None,
            out@ == assembled(header@, views(blocks@), i as int),
        decreases n - i,
    {
        match reconstruct(blocks[i].as_str()) {
            Ok(body) => {
                let exercise = finish(header, body.as_str());
                out.append(exercise.as_str());
            },
            Err(e) => {
                return Err(e);
            },
        }
        i += 1;
    }
    Ok(out)
}

/// Converts a document, given its content nodes in document order and the
/// metadata strings found in it, into the finished exercises. It fails exactly
/// when a rewrite pattern is rejected.
pub fn convert(content: &Vec<DomNode>, metadata: &Vec<String>) -> (r: Result<
    String,
    PatternError,
>)
    ensures
        r is Ok <==> first_rejected() is None,
        r matches Ok(t) ==> t@ == assembled(
            header_text(metadata@),
            blocks_of(stream_of(content@)),
            blocks_of(stream_of(content@)).len() as int,
        ),
        r matches Err(e) ==> first_rejected() == Some(e.step),
{
    let header = build_header(metadata);
    let blocks = segment(content);
    assert(views(blocks@).len() == blocks@.len());
    assemble(header.as_str(), &blocks)
}

} // verus!
