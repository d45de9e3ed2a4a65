//! Rebuilding the nested structure of one raw exercise block from its
//! numbering, by four pattern rewrites applied in a fixed order.

use vstd::prelude::*;

verus! {

/// The error of the pattern engine, carried through unread.
#[verifier::external_type_specification]
#[verifier::external_body]
pub struct ExPatternEngineError(regex::Error);

/// Whether the pattern engine compiles a pattern, under its default limits.
pub uninterp spec fn pattern_compiles(pattern: Seq<char>) -> bool;

/// The text after every non-overlapping match of a valid pattern has been
/// replaced by the expanded template.
pub uninterp spec fn replaced_all(pattern: Seq<char>, text: Seq<char>, template: Seq<char>) -> Seq<char>;

/// Compiles `pattern` with `regex::Regex::new` and rewrites `text` with
/// `regex::Regex::replace_all`. Trusted: the call fails exactly on the patterns
/// that the engine does not compile, whatever the text; on a pattern that it
/// compiles, every match is replaced and the result depends on the three
/// arguments alone.
#[verifier::external_body]
fn replace_all(pattern: &str, text: &str, template: &str) -> (r: Result<String, regex::Error>)
    ensures
        r is Ok <==> pattern_compiles(pattern@),
        r is Ok ==> r->Ok_0@ == replaced_all(pattern@, text@, template@),
{
    let compiled = regex::Regex::new(pattern)?;
    Ok(compiled.replace_all(text, template).into_owned())
}

/// The message of a pattern engine error, from its `to_string`. Trusted:
/// nothing is claimed of the message.
#[verifier::external_body]
fn engine_message(error: &regex::Error) -> (r: String) {
    error.to_string()
}

/// The four rewrites, in the order in which they are applied. Each one reads
/// markup that the one before it has put in.
#[derive(Clone, Copy, Debug, PartialEq, Eq, Structural)]
pub enum RewriteStep {
    /// Wraps everything from the first "1." to the end of the block in a
    /// question block.
    WrapNumbered,
    /// Wraps a run of lettered parts, from "a)" up to the next numbered line,
    /// in a question block of its own.
    WrapLettered,
    /// Turns each remaining number after white space into an item marker.
    NumberItems,
    /// Turns each remaining indented letter into an item marker.
    LetterItems,
}

/// A rewrite whose pattern the engine rejects.
#[derive(Debug)]
pub struct PatternError {
    /// The rewrite that could not be applied.
    pub step: RewriteStep,
    /// What the engine said of the pattern.
    pub message: String,
}

impl RewriteStep {
    /// The pattern that the rewrite looks for.
    pub open spec fn pattern_seq(self) -> Seq<char> {
        match self {
            RewriteStep::WrapNumbered => "(?s)(1\\..*)"@,
            RewriteStep::WrapLettered => "(?s)(a\\).*?)(\\n\\s*\\d\\.)"@,
            RewriteStep::NumberItems => "(?s)(\\s+)\\d\\."@,
            RewriteStep::LetterItems => "(?s)(\\n\\s+)[a-z]\\)"@,
        }
    }

    /// The template that stands in for each match.
    pub open spec fn template_seq(self) -> Seq<char> {
        match self {
            RewriteStep::WrapNumbered => "\\begin{question}\n$1\\end{question}\n$2"@,
            RewriteStep::WrapLettered => "\n\\begin{question}\n$1\\end{question}\n$2"@,
            RewriteStep::NumberItems => "$1\\item "@,
            RewriteStep::LetterItems => "$1\\item "@,
        }
    }

    /// Whether the engine compiles the rewrite's pattern.
    pub open spec fn compiles(self) -> bool {
        pattern_compiles(self.pattern_seq())
    }

    /// The text after the rewrite.
    pub open spec fn rewritten(self, text: Seq<char>) -> Seq<char> {
        replaced_all(self.pattern_seq(), text, self.template_seq())
    }

    /// The pattern that the rewrite looks for.
    pub fn pattern(self) -> (r: &'static str)
        ensures
            r@ == self.pattern_seq(),
    {
        match self {
            RewriteStep::WrapNumbered => "(?s)(1\\..*)",
            RewriteStep::WrapLettered => "(?s)(a\\).*?)(\\n\\s*\\d\\.)",
            RewriteStep::NumberItems => "(?s)(\\s+)\\d\\.",
            RewriteStep::LetterItems => "(?s)(\\n\\s+)[a-z]\\)",
        }
    }

    /// The template that stands in for each match.
    pub fn template(self) -> (r: &'static str)
        ensures
            r@ == self.template_seq(),
    {
        match self {
            RewriteStep::WrapNumbered => "\\begin{question}\n$1\\end{question}\n$2",
            RewriteStep::WrapLettered => "\n\\begin{question}\n$1\\end{question}\n$2",
            RewriteStep::NumberItems => "$1\\item ",
            RewriteStep::LetterItems => "$1\\item ",
        }
    }

    /// Applies the rewrite to a text. It fails exactly when the engine rejects
    /// the rewrite's pattern, and then names the rewrite.
    pub fn apply(self, text: &str) -> (r: Result<String, PatternError>)
        ensures
            r is Ok <==> self.compiles(),
            r matches Ok(t) ==> t@ == self.rewritten(text@),
            r matches Err(e) ==> e.step == self,
    {
        outcome_of(self, replace_all(self.pattern(), text, self.template()))
    }
}

/// What a rewrite returns for what the engine gave: the text as it is, or an
/// error that names the rewrite.
pub fn outcome_of(step: RewriteStep, engine: Result<String, regex::Error>) -> (r: Result<
    String,
    PatternError,
>)
    ensures
        r is Ok <==> engine is Ok,
        r matches Ok(t) ==> engine->Ok_0 == t,
        r matches Err(e) ==> e.step == step,
{
    match engine {
        Ok(text) => Ok(text),
        Err(error) => Err(PatternError { step, message: engine_message(&error) }),
    }
}

/// The first rewrite, in order of application, whose pattern the engine
/// rejects.
pub open spec fn first_rejected() -> Option<RewriteStep> {
    if !RewriteStep::WrapNumbered.compiles() {
        Some(RewriteStep::WrapNumbered)
    } else if !RewriteStep::WrapLettered.compiles() {
        Some(RewriteStep::WrapLettered)
    } else if !RewriteStep::NumberItems.compiles() {
        Some(RewriteStep::NumberItems)
    } else if !RewriteStep::LetterItems.compiles() {
        Some(RewriteStep::LetterItems)
    } else {
        None
    }
}

/// A block after the four rewrites, each applied to the result of the one
/// before.
pub open spec fn reconstructed(block: Seq<char>) -> Seq<char> {
    RewriteStep::LetterItems.rewritten(
        RewriteStep::NumberItems.rewritten(
            RewriteStep::WrapLettered.rewritten(RewriteStep::WrapNumbered.rewritten(block)),
        ),
    )
}

/// Rebuilds the structure of one raw block. It succeeds exactly when the
/// engine accepts all four patterns, and otherwise names the first one that
/// it rejects.
pub fn reconstruct(block: &str) -> (r: Result<String, PatternError>)
    ensures
        r is Ok <==> first_rejected() is None,
        r matches Ok(t) ==> t@ == reconstructed(block@),
        r matches Err(e) ==> first_rejected() == Some(e.step),
{
    let numbered = match RewriteStep::WrapNumbered.apply(block) {
        Ok(t) => t,
        Err(e) => {
            return Err(e);
        },
    };
    let lettered = match RewriteStep::WrapLettered.apply(numbered.as_str()) {
        Ok(t) => t,
        Err(e) => {
            return Err(e);
        },
    };
    let items = match RewriteStep::NumberItems.apply(lettered.as_str()) {
        Ok(t) => t,
        Err(e) => {
            return Err(e);
        },
    };
    RewriteStep::LetterItems.apply(items.as_str())
}

} // verus!
