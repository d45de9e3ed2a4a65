//! The header that opens every finished exercise, from the metadata strings
//! found in the document.

use vstd::prelude::*;
use vstd::string::*;
use crate::markup::{HEADER_CLOSE, HEADER_OPEN, SPACE};
use crate::text::{joined, str_trim, trimmed};

verus! {

/// How many of the metadata strings a header holds at most.
pub const HEADER_FIELDS: usize = 3;

/// How many of the `n` strings found go into the header.
pub open spec fn kept(n: nat) -> nat {
    if n < HEADER_FIELDS as nat {
        n
    } else {
        HEADER_FIELDS as nat
    }
}

/// The header's fields: the first strings found, at most three, trimmed and
/// in reverse order.
pub open spec fn header_fields(found: Seq<String>) -> Seq<Seq<char>> {
    Seq::new(kept(found.len()), |j: int| trimmed(found[kept(found.len()) - 1 - j]@))
}

/// The header for the strings found in a document.
pub open spec fn header_text(found: Seq<String>) -> Seq<char> {
    HEADER_OPEN@ + joined(header_fields(found), SPACE@) + HEADER_CLOSE@
}

/// With one string found, the header holds that string alone, with no
/// space or placeholder beside it.
pub proof fn lemma_single_field(found: Seq<String>)
    requires
        found.len() == 1,
    ensures
        header_text(found) == HEADER_OPEN@ + trimmed(found[0]@) + HEADER_CLOSE@,
{
}

/// With nothing found, the header is empty between its two ends.
pub proof fn lemma_no_field(found: Seq<String>)
    requires
        found.len() == 0,
    ensures
        header_text(found) =~= HEADER_OPEN@ + HEADER_CLOSE@,
{
}

/// Builds the header from the metadata strings in the order in which the
/// document lists them: the first three are trimmed, put in reverse order and
/// joined by single spaces. Fewer strings give a shorter header.
pub fn build_header(found: &Vec<String>) -> (r: String)
    ensures
        r@ == header_text(found@),
{
    let k: usize = if found.len() < HEADER_FIELDS {
        found.len()
    } else {
        HEADER_FIELDS
    };
    let ghost fields = header_fields(found@);
    let mut out = String::new();
    out.append(HEADER_OPEN);
    let mut j: usize = 0;
    assert(fields.take(0) =~= Seq::<Seq<char>>::empty());
    while j < k
        invariant
            k == kept(found@.len()),
            k <= found@.len(),
            j <= k,
            fields == header_fields(found@),
            out@ =~= HEADER_OPEN@ + joined(fields.take(j as int), SPACE@),
        decreases k - j,
    {
        if j > 0 {
            out.append(SPACE);
        }
        out.append(str_trim(found[k - 1 - j].as_str()));
        proof {
            let next = fields.take(j + 1);
            assert(next.drop_last() =~= fields.take(j as int));
            assert(next.last() == trimmed(found@[k - 1 - j]@));
        }
        j += 1;
    }
    assert(fields.take(k as int) =~= fields);
    out.append(HEADER_CLOSE);
    out
}

} // verus!
