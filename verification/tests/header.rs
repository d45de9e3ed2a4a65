use exo_markup::header::{build_header, HEADER_FIELDS};

fn strings(items: &[&str]) -> Vec<String> {
    items.iter().map(|s| s.to_string()).collect()
}

#[test]
fn header_holds_at_most_three_fields() {
    assert_eq!(HEADER_FIELDS, 3);
}

#[test]
fn single_string_gives_header_with_that_string_only() {
    assert_eq!(build_header(&strings(&["Mines"])), "\\begin{exo}[comment=Mines]\n");
}

#[test]
fn three_strings_are_reversed_and_joined() {
    assert_eq!(
        build_header(&strings(&["2019", "MP", "Centrale"])),
        "\\begin{exo}[comment=Centrale MP 2019]\n"
    );
}

#[test]
fn two_strings_give_a_shorter_header() {
    assert_eq!(build_header(&strings(&["a", "b"])), "\\begin{exo}[comment=b a]\n");
}

#[test]
fn no_string_gives_an_empty_comment() {
    assert_eq!(build_header(&strings(&[])), "\\begin{exo}[comment=]\n");
}

#[test]
fn strings_after_the_third_are_ignored() {
    assert_eq!(
        build_header(&strings(&["1", "2", "3", "4", "5"])),
        "\\begin{exo}[comment=3 2 1]\n"
    );
}

#[test]
fn fields_are_trimmed() {
    assert_eq!(
        build_header(&strings(&["  x \n", "\ty y "])),
        "\\begin{exo}[comment=y y x]\n"
    );
}
