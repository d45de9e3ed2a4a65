//! The literal pieces of markup and the cue words that the conversion knows.

use vstd::prelude::*;

verus! {

/// The delimiter that stands between two exercises in the visited text. It is
/// never part of the final output, and ordinary exercise text does not hold it.
pub const SEPARATOR: &'static str = "-----";

/// The word that announces a new exercise.
pub const CUE_EXERCISE: &'static str = "Exercice";

/// The word that opens a hint, after which nothing is kept.
pub const CUE_HINT: &'static str = "Indication";

pub const NEWLINE: &'static str = "\n";

pub const BEGIN_QUESTION: &'static str = "\\begin{question}\n";

pub const END_QUESTION: &'static str = "\\end{question}\n";

pub const BEGIN_ITEMIZE: &'static str = "\\begin{itemize}\n";

pub const END_ITEMIZE: &'static str = "\\end{itemize}\n";

pub const ITEM: &'static str = "\\item\n";

pub const HEADER_OPEN: &'static str = "\\begin{exo}[comment=";

pub const HEADER_CLOSE: &'static str = "]\n";

pub const EXERCISE_CLOSE: &'static str = "\\end{exo}\n";

pub const SPACE: &'static str = " ";

/// A separator on a line of its own.
pub open spec fn separator_line() -> Seq<char> {
    NEWLINE@ + SEPARATOR@ + NEWLINE@
}

} // verus!
