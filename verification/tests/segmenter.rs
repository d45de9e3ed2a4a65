use exo_markup::dom::DomNode;
use exo_markup::markup::SEPARATOR;
use exo_markup::segment::{cut_blocks, linearize, segment};

fn leaf(s: &str) -> DomNode {
    DomNode::text_node(s.to_string())
}

fn tag(name: &str, children: Vec<DomNode>) -> DomNode {
    DomNode::element(name.to_string(), children)
}

#[test]
fn separator_is_five_dashes() {
    assert_eq!(SEPARATOR, "-----");
}

#[test]
fn empty_document_gives_one_empty_block() {
    let blocks = segment(&vec![]);
    assert_eq!(blocks, vec![String::new()]);
}

#[test]
fn document_without_cue_gives_one_block_with_everything() {
    let blocks = segment(&vec![tag("div", vec![leaf("just text")])]);
    assert_eq!(blocks, vec!["\njust text".to_string()]);
}

#[test]
fn linearize_prepends_separator_only_when_missing() {
    assert_eq!(linearize(&vec![leaf("abc")]), "-----abc");
    assert_eq!(linearize(&vec![leaf("a"), leaf("Exercice 1"), leaf("b")]), "a\n-----\nb");
    assert_eq!(linearize(&vec![]), "-----");
}

#[test]
fn first_piece_is_discarded_whatever_it_holds() {
    assert_eq!(cut_blocks("boilerplate-----A-----B"), vec!["A".to_string(), "B".to_string()]);
    assert_eq!(cut_blocks("-----A-----B"), vec!["A".to_string(), "B".to_string()]);
    assert_eq!(cut_blocks("1. a real exercise-----A"), vec!["A".to_string()]);
}

#[test]
fn text_without_separator_leaves_no_block() {
    assert_eq!(cut_blocks("no separator"), Vec::<String>::new());
}

#[test]
fn adjacent_separators_give_empty_blocks() {
    assert_eq!(
        cut_blocks("x----------y-----"),
        vec![String::new(), "y".to_string(), String::new()]
    );
}

#[test]
fn longer_dash_runs_split_leftmost_first() {
    assert_eq!(cut_blocks("a-------b"), vec!["--b".to_string()]);
}

#[test]
fn two_exercises_give_two_blocks_in_order() {
    let doc = vec![
        tag("div", vec![tag("u", vec![leaf("Exercice 1")]), leaf("first")]),
        tag("div", vec![tag("u", vec![leaf("Exercice 2")]), leaf("second")]),
    ];
    assert_eq!(segment(&doc), vec!["\nfirst\n\n".to_string(), "\nsecond".to_string()]);
}

#[test]
fn content_before_first_cue_is_lost() {
    let doc = vec![leaf("preface"), leaf("Exercice 1"), leaf("body")];
    assert_eq!(segment(&doc), vec!["\nbody".to_string()]);
}

#[test]
fn non_ascii_text_is_cut_by_characters() {
    assert_eq!(cut_blocks("é-----où-----à"), vec!["où".to_string(), "à".to_string()]);
}
