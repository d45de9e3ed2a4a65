//! The document tree and the visitor that turns a subtree into annotated text.

use vstd::prelude::*;
use vstd::string::*;
use crate::markup::{
    separator_line, BEGIN_ITEMIZE, BEGIN_QUESTION, CUE_EXERCISE, CUE_HINT, END_ITEMIZE,
    END_QUESTION, ITEM, NEWLINE, SEPARATOR,
};
use crate::text::{contains, starts_with, str_contains, str_eq, str_starts_with};

verus! {

/// What the visitor tells apart among the nodes of a document.
#[derive(Clone, Copy, Debug, PartialEq, Eq, Structural)]
pub enum NodeKind {
    OrderedList,
    UnorderedList,
    ListItem,
    LineBreak,
    Underline,
    Block,
    Other,
}

/// A node of the document: a tag name if it is an element, the text that it
/// holds directly if any, and its children in document order.
#[derive(Debug)]
pub struct DomNode {
    pub name: Option<String>,
    pub text: Option<String>,
    pub children: Vec<DomNode>,
}

/// The kind of a node with the given tag name.
pub open spec fn kind_of(name: Option<Seq<char>>) -> NodeKind {
    match name {
        None => NodeKind::Other,
        Some(n) => if n == "ol"@ {
            NodeKind::OrderedList
        } else if n == "ul"@ {
            NodeKind::UnorderedList
        } else if n == "li"@ {
            NodeKind::ListItem
        } else if n == "br"@ {
            NodeKind::LineBreak
        } else if n == "u"@ {
            NodeKind::Underline
        } else if n == "div"@ {
            NodeKind::Block
        } else {
            NodeKind::Other
        },
    }
}

/// The texts of the first `k` nodes and of all their descendants, in order.
pub open spec fn full_text_prefix(nodes: Seq<DomNode>, k: int) -> Seq<char>
    decreases nodes, k,
{
    if k <= 0 || k > nodes.len() {
        Seq::<char>::empty()
    } else {
        full_text_prefix(nodes, k - 1) + nodes[k - 1].full_text_seq()
    }
}

/// Whether a hint begins at this node.
pub open spec fn opens_hint(node: DomNode) -> bool {
    starts_with(node.full_text_seq(), CUE_HINT@)
}

/// The index of the first node at or after `i` at which a hint begins, or
/// the number of nodes if there is none.
pub open spec fn cut_from(nodes: Seq<DomNode>, i: int) -> int
    decreases nodes.len() - i,
{
    if i < 0 || i >= nodes.len() {
        nodes.len() as int
    } else if opens_hint(nodes[i]) {
        i
    } else {
        cut_from(nodes, i + 1)
    }
}

/// The visited text of the first `k` nodes, in order.
pub open spec fn visited_prefix(nodes: Seq<DomNode>, k: int) -> Seq<char>
    decreases nodes, k,
{
    if k <= 0 || k > nodes.len() {
        Seq::<char>::empty()
    } else {
        visited_prefix(nodes, k - 1) + visited(nodes[k - 1])
    }
}

/// The annotated text of a node and its descendants.
///
/// A list wraps all its children in a block, a list item puts a marker before
/// its text and children, and a line break is a newline. An underlined node
/// whose full text names an exercise is a separator line and nothing else.
/// Any other node, an underlined one without that word among them, starts a
/// new line if it is a block, then gives a separator line if its own text
/// names an exercise, and otherwise its own text followed by its children up
/// to the first one at which a hint begins.
pub open spec fn visited(node: DomNode) -> Seq<char>
    decreases node, 0int,
{
    let kids = node.children@;
    let lead = if node.kind() == NodeKind::Block {
        NEWLINE@
    } else {
        Seq::<char>::empty()
    };
    match node.kind() {
        NodeKind::OrderedList => BEGIN_QUESTION@ + visited_prefix(kids, kids.len() as int)
            + END_QUESTION@,
        NodeKind::UnorderedList => BEGIN_ITEMIZE@ + visited_prefix(kids, kids.len() as int)
            + END_ITEMIZE@,
        NodeKind::ListItem => ITEM@ + node.own_text() + visited_prefix(kids, kids.len() as int)
            + NEWLINE@,
        NodeKind::LineBreak => NEWLINE@,
        _ => if node.is_underlined_title() {
            separator_line()
        } else if contains(node.own_text(), CUE_EXERCISE@) {
            lead + separator_line()
        } else {
            lead + node.own_text() + visited_prefix(kids, cut_from(kids, 0))
        },
    }
}

impl DomNode {
    /// The text that the node holds directly; empty if it holds none.
    pub open spec fn own_text(self) -> Seq<char> {
        match self.text {
            Some(t) => t@,
            None => Seq::<char>::empty(),
        }
    }

    /// The node's kind, by its tag name.
    pub open spec fn kind(self) -> NodeKind {
        kind_of(
            match self.name {
                Some(n) => Some(n@),
                None => None,
            },
        )
    }

    /// Whether the node is underlined and its full text names an exercise.
    pub open spec fn is_underlined_title(self) -> bool {
        self.kind() == NodeKind::Underline && contains(self.full_text_seq(), CUE_EXERCISE@)
    }

    /// The text of the node and of all its descendants, in document order.
    pub open spec fn full_text_seq(self) -> Seq<char>
        decreases self, 0int,
    {
        self.own_text() + full_text_prefix(self.children@, self.children@.len() as int)
    }

    /// A node without children that holds only text.
    pub fn text_node(text: String) -> (r: DomNode)
        ensures
            r.name is None,
            r.text == Some(text),
            r.children@.len() == 0,
    {
        DomNode { name: None, text: Some(text), children: Vec::new() }
    }

    /// An element with the given tag name and children, and no text of its own.
    pub fn element(name: String, children: Vec<DomNode>) -> (r: DomNode)
        ensures
            r.name == Some(name),
            r.text is None,
            r.children == children,
    {
        DomNode { name: Some(name), text: None, children }
    }

    /// The node's kind, by its tag name.
    pub fn classify(&self) -> (r: NodeKind)
        ensures
            r == self.kind(),
    {
        match &self.name {
            None => NodeKind::Other,
            Some(n) => {
                let n = n.as_str();
                if str_eq(n, "ol") {
                    NodeKind::OrderedList
                } else if str_eq(n, "ul") {
                    NodeKind::UnorderedList
                } else if str_eq(n, "li") {
                    NodeKind::ListItem
                } else if str_eq(n, "br") {
                    NodeKind::LineBreak
                } else if str_eq(n, "u") {
                    NodeKind::Underline
                } else if str_eq(n, "div") {
                    NodeKind::Block
                } else {
                    NodeKind::Other
                }
            },
        }
    }

    /// The text of the node and of all its descendants, in document order.
    pub fn full_text(&self) -> (r: String)
        ensures
            r@ == self.full_text_seq(),
        decreases self,
    {
        let mut out = String::new();
        match &self.text {
            Some(t) => out.append(t.as_str()),
            None => {},
        }
        let n: usize = self.children.len();
        let mut i: usize = 0;
        while i < n
            invariant
                n == self.children@.len(),
                i <= n,
                out@ == self.own_text() + full_text_prefix(self.children@, i as int),
            decreases n - i,
        {
            let sub = self.children[i].full_text();
            out.append(sub.as_str());
            i += 1;
        }
        out
    }
}

/// The number of leading nodes before the first one at which a hint begins.
pub fn cut_index(nodes: &Vec<DomNode>) -> (r: usize)
    ensures
        r == cut_from(nodes@, 0),
        r <= nodes@.len(),
{
    let n: usize = nodes.len();
    let mut i: usize = 0;
    while i < n
        invariant
            n == nodes@.len(),
            i <= n,
            cut_from(nodes@, 0) == cut_from(nodes@, i as int),
        decreases n - i,
    {
        let t = nodes[i].full_text();
        if str_starts_with(t.as_str(), CUE_HINT) {
            return i;
        }
        i += 1;
    }
    i
}

/// Appends the visited text of the first `k` nodes to `out`.
fn visit_into(out: &mut String, nodes: &Vec<DomNode>, k: usize)
    requires
        k <= nodes@.len(),
    ensures
        final(out)@ == old(out)@ + visited_prefix(nodes@, k as int),
    decreases nodes, 0int,
{
    let mut i: usize = 0;
    while i < k
        invariant
            k <= nodes@.len(),
            i <= k,
            out@ == old(out)@ + visited_prefix(nodes@, i as int),
        decreases k - i,
    {
        let sub = visit(&nodes[i]);
        out.append(sub.as_str());
        i += 1;
    }
}

/// Turns the nodes and their descendants into annotated text, in order.
pub fn visit_all(nodes: &Vec<DomNode>) -> (r: String)
    ensures
        r@ == visited_prefix(nodes@, nodes@.len() as int),
{
    let mut out = String::new();
    visit_into(&mut out, nodes, nodes.len());
    assert(out@ =~= visited_prefix(nodes@, nodes@.len() as int));
    out
}

/// Turns a node and its descendants into annotated text.
pub fn visit(node: &DomNode) -> (r: String)
    ensures
        r@ == visited(*node),
    decreases node, 1int,
{
    let mut out = String::new();
    let n: usize = node.children.len();
    match node.classify() {
        NodeKind::OrderedList => {
            out.append(BEGIN_QUESTION);
            visit_into(&mut out, &node.children, n);
            out.append(END_QUESTION);
        },
        NodeKind::UnorderedList => {
            out.append(BEGIN_ITEMIZE);
            visit_into(&mut out, &node.children, n);
            out.append(END_ITEMIZE);
        },
        NodeKind::ListItem => {
            out.append(ITEM);
            match &node.text {
                Some(t) => out.append(t.as_str()),
                None => {},
            }
            visit_into(&mut out, &node.children, n);
            out.append(NEWLINE);
        },
        NodeKind::LineBreak => {
            out.append(NEWLINE);
        },
        kind => {
            let title = kind == NodeKind::Underline && {
                let full = node.full_text();
                str_contains(full.as_str(), CUE_EXERCISE)
            };
            if title {
                out.append(NEWLINE);
                out.append(SEPARATOR);
                out.append(NEWLINE);
            } else {
                if kind == NodeKind::Block {
                    out.append(NEWLINE);
                }
                let names_exercise = match &node.text {
                    Some(t) => str_contains(t.as_str(), CUE_EXERCISE),
                    None => {
                        proof {
                            reveal_strlit("Exercice");
                        }
                        false
                    },
                };
                if names_exercise {
                    out.append(NEWLINE);
                    out.append(SEPARATOR);
                    out.append(NEWLINE);
                } else {
                    match &node.text {
                        Some(t) => out.append(t.as_str()),
                        None => {},
                    }
                    let k = cut_index(&node.children);
                    visit_into(&mut out, &node.children, k);
                }
            }
        },
    }
    assert(out@ =~= visited(*node));
    out
}

/// The cut lies at the first node at which a hint begins: no node before
/// it opens one, and it is either the end of the list or such a node.
pub proof fn lemma_cut_from(nodes: Seq<DomNode>, i: int)
    requires
        0 <= i <= nodes.len(),
    ensures
        i <= cut_from(nodes, i) <= nodes.len(),
        forall|j: int| i <= j < cut_from(nodes, i) ==> !opens_hint(#[trigger] nodes[j]),
        cut_from(nodes, i) < nodes.len() ==> opens_hint(nodes[cut_from(nodes, i)]),
    decreases nodes.len() - i,
{
    if i < nodes.len() && !opens_hint(nodes[i]) {
        lemma_cut_from(nodes, i + 1);
    }
}

/// Two lists that agree on their first `k` nodes give the same visited text
/// for those nodes.
pub proof fn lemma_visited_prefix_agrees(a: Seq<DomNode>, b: Seq<DomNode>, k: int)
    requires
        0 <= k <= a.len(),
        k <= b.len(),
        forall|j: int| 0 <= j < k ==> a[j] == b[j],
    ensures
        visited_prefix(a, k) == visited_prefix(b, k),
    decreases k,
{
    if k > 0 {
        lemma_visited_prefix_agrees(a, b, k - 1);
    }
}

/// An underlined node whose full text names an exercise is a separator line,
/// whatever its children hold.
pub proof fn lemma_underlined_title(node: DomNode)
    requires
        node.is_underlined_title(),
    ensures
        visited(node) == separator_line(),
{
}

/// An underlined node whose full text does not name an exercise keeps its
/// text: it is visited as a node without a tag is.
pub proof fn lemma_underline_without_title(node: DomNode, plain: DomNode)
    requires
        node.kind() == NodeKind::Underline,
        !node.is_underlined_title(),
        plain.kind() == NodeKind::Other,
        plain.own_text() == node.own_text(),
        plain.children@ == node.children@,
    ensures
        visited(node) == visited(plain),
{
}

/// Nothing from a child at which a hint begins, nor from its later siblings,
/// reaches the visited text of a node that is neither a list nor a list
/// item: the node gives the same text as one that has only the children before
/// that child. Of an underlined node this holds where the children that are
/// left out do not decide whether it is an exercise title.
pub proof fn lemma_hint_truncates(node: DomNode, cut: DomNode, k: int)
    requires
        0 <= k < node.children@.len(),
        opens_hint(node.children@[k]),
        cut.kind() == node.kind(),
        cut.own_text() == node.own_text(),
        cut.children@ == node.children@.take(k),
        node.kind() != NodeKind::OrderedList,
        node.kind() != NodeKind::UnorderedList,
        node.kind() != NodeKind::ListItem,
        node.is_underlined_title() == cut.is_underlined_title(),
    ensures
        visited(node) == visited(cut),
{
    let a = node.children@;
    let b = cut.children@;
    lemma_cut_from(a, 0);
    lemma_cut_from(b, 0);
    let ca = cut_from(a, 0);
    let cb = cut_from(b, 0);
    assert(ca <= k) by {
        if ca > k {
            assert(!opens_hint(a[k]));
        }
    }
    assert forall|j: int| 0 <= j < k implies a[j] == b[j] by {}
    assert(ca == cb) by {
        if cb < ca {
            assert(opens_hint(b[cb]));
            assert(!opens_hint(a[cb]));
        }
        if ca < cb {
            assert(opens_hint(a[ca]));
            assert(!opens_hint(b[ca]));
        }
    }
    lemma_visited_prefix_agrees(a, b, ca);
}

} // verus!
