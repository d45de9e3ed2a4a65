use exo_markup::dom::{visit, DomNode};
use exo_markup::pipeline::{assemble, convert, finish};
use exo_markup::rewrite::reconstruct;
use exo_markup::segment::segment;

fn txt(s: &str) -> DomNode {
    DomNode::text_node(s.to_string())
}

fn elem(name: &str, children: Vec<DomNode>) -> DomNode {
    DomNode::element(name.to_string(), children)
}

fn titled_list() -> DomNode {
    elem(
        "div",
        vec![
            txt("Exercice 1"),
            elem(
                "ol",
                vec![elem("li", vec![txt("1. first")]), elem("li", vec![txt("2. second")])],
            ),
        ],
    )
}

#[test]
fn titled_list_is_visited_cut_and_reconstructed() {
    let tree = titled_list();
    assert_eq!(
        visit(&tree),
        "\n\n-----\n\\begin{question}\n\\item\n1. first\n\\item\n2. second\n\\end{question}\n"
    );
    let blocks = segment(&vec![tree]);
    assert_eq!(blocks.len(), 1);
    let out = reconstruct(&blocks[0]).unwrap();
    assert_eq!(
        out,
        "\n\\begin{question}\n\\item\n\\begin{question}\n\\item  first\n\\item\n\\item  second\n\\end{question}\n\\end{question}\n"
    );
    assert!(!out.contains("-----"));
    let outer = out.find("\\begin{question}").unwrap();
    let first = out.find("first").unwrap();
    let second = out.find("second").unwrap();
    let close = out.rfind("\\end{question}").unwrap();
    assert!(outer < first && first < second && second < close);
    assert_eq!(out.matches("\\item  ").count(), 2);
}

#[test]
fn finish_wraps_body_between_header_and_closing_marker() {
    assert_eq!(finish("H\n", "body"), "H\nbody\\end{exo}\n");
}

#[test]
fn assemble_keeps_block_order() {
    let blocks = vec!["one".to_string(), "two".to_string()];
    assert_eq!(
        assemble("H|", &blocks).unwrap(),
        "H|one\\end{exo}\nH|two\\end{exo}\n"
    );
}

#[test]
fn assemble_of_nothing_is_empty() {
    assert_eq!(assemble("H|", &vec![]).unwrap(), "");
}

#[test]
fn convert_runs_the_whole_chain() {
    let content = vec![titled_list()];
    let metadata = vec!["2020".to_string(), " PC ".to_string()];
    assert_eq!(
        convert(&content, &metadata).unwrap(),
        "\\begin{exo}[comment=PC 2020]\n\n\\begin{question}\n\\item\n\\begin{question}\n\\item  first\n\\item\n\\item  second\n\\end{question}\n\\end{question}\n\\end{exo}\n"
    );
}

#[test]
fn convert_of_empty_document_gives_one_empty_exercise() {
    assert_eq!(convert(&vec![], &vec![]).unwrap(), "\\begin{exo}[comment=]\n\\end{exo}\n");
}

#[test]
fn convert_never_emits_the_separator() {
    let content = vec![txt("Exercice 1"), txt("a"), txt("Exercice 2"), txt("b")];
    let out = convert(&content, &vec![]).unwrap();
    assert!(!out.contains("-----"));
    assert_eq!(out.matches("\\end{exo}").count(), 2);
}
