use exo_markup::rewrite::{outcome_of, reconstruct, RewriteStep};

#[test]
fn numbered_and_lettered_block_is_nested() {
    let out = reconstruct("1. Compute X.\na) step one\nb) step two\n2. Compute Y.").unwrap();
    assert_eq!(
        out,
        "\\begin{question}\n\\item  Compute X.\n\n\\begin{question}\na) step one\nb) step two\\end{question}\n\n\\item  Compute Y.\\end{question}\n"
    );
}

#[test]
fn block_without_numbering_is_unchanged() {
    let block = "Show that the sequence converges.\nThen conclude.";
    assert_eq!(reconstruct(block).unwrap(), block);
    assert_eq!(reconstruct("").unwrap(), "");
}

#[test]
fn openers_and_closers_balance_on_a_numbered_block() {
    let out = reconstruct("Intro\n1. A\n a) x\n b) y\n2. B\n a) z\n3. C").unwrap();
    assert_eq!(
        out.matches("\\begin{question}").count(),
        out.matches("\\end{question}").count()
    );
    assert_eq!(out.matches("\\begin{question}").count(), 3);
    assert_eq!(
        out.matches("\\begin{itemize}").count(),
        out.matches("\\end{itemize}").count()
    );
}

#[test]
fn indented_letters_become_items() {
    let out = reconstruct("1. A\n a) x\n b) y\n2. B").unwrap();
    assert_eq!(
        out,
        "\\begin{question}\n\\item  A\n \n\\begin{question}\na) x\n \\item  y\\end{question}\n\n\\item  B\\end{question}\n"
    );
}

#[test]
fn wrap_numbered_runs_to_the_end_of_the_block() {
    let out = RewriteStep::WrapNumbered.apply("intro 1. a\n2. b").unwrap();
    assert_eq!(out, "intro \\begin{question}\n1. a\n2. b\\end{question}\n");
    assert_eq!(RewriteStep::WrapNumbered.apply("2. b").unwrap(), "2. b");
}

#[test]
fn wrap_lettered_stops_before_the_next_number() {
    let out = RewriteStep::WrapLettered.apply("a) x\nb) y\n2. next").unwrap();
    assert_eq!(out, "\n\\begin{question}\na) x\nb) y\\end{question}\n\n2. next");
    assert_eq!(RewriteStep::WrapLettered.apply("a) x\nb) y").unwrap(), "a) x\nb) y");
}

#[test]
fn number_items_needs_white_space_before_the_digit() {
    assert_eq!(RewriteStep::NumberItems.apply("x\n2. b 3. c").unwrap(), "x\n\\item  b \\item  c");
    assert_eq!(RewriteStep::NumberItems.apply("2. b").unwrap(), "2. b");
}

#[test]
fn letter_items_needs_an_indented_letter() {
    assert_eq!(RewriteStep::LetterItems.apply("x\n  b) y").unwrap(), "x\n  \\item  y");
    assert_eq!(RewriteStep::LetterItems.apply("x\nb) y").unwrap(), "x\nb) y");
}

#[test]
fn rewrites_are_not_idempotent() {
    let once = RewriteStep::WrapNumbered.apply("1. a").unwrap();
    let twice = RewriteStep::WrapNumbered.apply(&once).unwrap();
    assert_ne!(once, twice);
}

#[test]
fn item_rewrites_reach_a_fixed_point() {
    let once = RewriteStep::NumberItems.apply("x\n2. b").unwrap();
    assert_eq!(RewriteStep::NumberItems.apply(&once).unwrap(), once);
}

#[test]
fn duplicate_numbering_is_rewritten_mechanically() {
    let out = reconstruct("1. a\n1. b").unwrap();
    assert_eq!(out, "\\begin{question}\n\\item  a\n\\item  b\\end{question}\n");
}

#[test]
fn fixed_patterns_and_templates() {
    assert_eq!(RewriteStep::WrapNumbered.pattern(), r"(?s)(1\..*)");
    assert_eq!(RewriteStep::WrapLettered.pattern(), r"(?s)(a\).*?)(\n\s*\d\.)");
    assert_eq!(RewriteStep::NumberItems.pattern(), r"(?s)(\s+)\d\.");
    assert_eq!(RewriteStep::LetterItems.pattern(), r"(?s)(\n\s+)[a-z]\)");
    assert_eq!(RewriteStep::WrapNumbered.template(), "\\begin{question}\n$1\\end{question}\n$2");
    assert_eq!(RewriteStep::WrapLettered.template(), "\n\\begin{question}\n$1\\end{question}\n$2");
    assert_eq!(RewriteStep::NumberItems.template(), "$1\\item ");
    assert_eq!(RewriteStep::LetterItems.template(), "$1\\item ");
}

#[test]
fn engine_error_names_the_rewrite() {
    let engine = regex::Regex::new("(").unwrap_err();
    let expected = engine.to_string();
    let err = outcome_of(RewriteStep::WrapLettered, Err(engine)).unwrap_err();
    assert_eq!(err.step, RewriteStep::WrapLettered);
    assert_eq!(err.message, expected);
}

#[test]
fn engine_text_is_passed_through() {
    let out = outcome_of(RewriteStep::NumberItems, Ok("done".to_string())).unwrap();
    assert_eq!(out, "done");
}
