//! The values that a query binds to its variables.

use vstd::prelude::*;
use crate::Resource;
use crate::table::KeyEntryTable;

verus! {

/// A value bound to a query variable: an IRI or a literal.
#[derive(Debug)]
pub enum Node {
    /// A node that stands for a resource.
    UriNode { uri: Resource },
    /// A literal value, with its datatype and language tag where it has them.
    LiteralNode { literal: String, data_type: Option<Resource>, language: Option<String> },
}

/// What a node holds, as plain values.
pub enum NodeView {
    UriNode { uri: Seq<char> },
    LiteralNode { literal: Seq<char>, data_type: Option<Seq<char>>, language: Option<Seq<char>> },
}

impl View for Node {
    type V = NodeView;

    open spec fn view(&self) -> NodeView {
        match self {
            Node::UriNode { uri } => NodeView::UriNode { uri: uri@ },
            Node::LiteralNode { literal, data_type, language } => NodeView::LiteralNode {
                literal: literal@,
                data_type: match data_type {
                    Some(t) => Some(t@),
                    None => None,
                },
                language: match language {
                    Some(l) => Some(l@),
                    None => None,
                },
            },
        }
    }
}

/// One solution of a query over nodes, as plain values: what it binds each
/// variable to, by the variable's name.
pub type Solution = Map<Seq<char>, NodeView>;

/// A binding of nodes as plain values.
pub open spec fn solution_of(binding: Map<Seq<char>, Node>) -> Solution {
    binding.map_values(|node: Node| node@)
}

/// The bindings of a table of nodes as plain values.
pub open spec fn solutions_of(rows: Seq<Map<Seq<char>, Node>>) -> Seq<Solution> {
    Seq::new(rows.len(), |i: int| solution_of(rows[i]))
}

impl KeyEntryTable<Node> {
    /// The solutions of the table as plain values.
    pub open spec fn solutions(&self) -> Seq<Solution> {
        solutions_of(self.rows())
    }
}

/// The IRI that `row` binds `variable` to, if it binds it to a URI node.
pub open spec fn bound_uri(row: Solution, variable: Seq<char>) -> Option<Seq<char>> {
    if row.contains_key(variable) {
        match row[variable] {
            NodeView::UriNode { uri } => Some(uri),
            NodeView::LiteralNode { .. } => None,
        }
    } else {
        None
    }
}

/// The text that `row` binds `variable` to, if it binds it to a literal.
pub open spec fn bound_literal(row: Solution, variable: Seq<char>) -> Option<Seq<char>> {
    if row.contains_key(variable) {
        match row[variable] {
            NodeView::UriNode { .. } => None,
            NodeView::LiteralNode { literal, .. } => Some(literal),
        }
    } else {
        None
    }
}

/// What a solution binds a variable to does not depend on whether it binds
/// another: a solution that lacks one variable is read for the others like
/// the solution that has it.
pub proof fn lemma_unbound_variable_leaves_others(
    row: Solution,
    missing: Seq<char>,
    wanted: Seq<char>,
)
    requires
        missing != wanted,
    ensures
        row.remove(missing).contains_key(wanted) == row.contains_key(wanted),
        bound_uri(row.remove(missing), wanted) == bound_uri(row, wanted),
        bound_literal(row.remove(missing), wanted) == bound_literal(row, wanted),
{
}

impl PartialEq for Node {
    fn eq(&self, other: &Self) -> (equal: bool) {
        match self {
            Node::UriNode { uri } => match other {
                Node::UriNode { uri: other_uri } => *uri == *other_uri,
                Node::LiteralNode { .. } => false,
            },
            Node::LiteralNode { literal, data_type, language } => match other {
                Node::UriNode { .. } => false,
                Node::LiteralNode {
                    literal: other_literal,
                    data_type: other_type,
                    language: other_language,
                } => {
                    let same_type = match data_type {
                        Some(t) => match other_type {
                            Some(u) => *t == *u,
                            None => false,
                        },
                        None => other_type.is_none(),
                    };
                    let same_language = match language {
                        Some(l) => match other_language {
                            Some(m) => *l == *m,
                            None => false,
                        },
                        None => other_language.is_none(),
                    };
                    *literal == *other_literal && same_type && same_language
                },
            },
        }
    }
}

impl Eq for Node {}

impl vstd::std_specs::cmp::PartialEqSpecImpl for Node {
    open spec fn obeys_eq_spec() -> bool {
        true
    }

    open spec fn eq_spec(&self, other: &Self) -> bool {
        self@ == other@
    }
}

impl Clone for Node {
    fn clone(&self) -> (copy: Self)
        ensures
            copy@ == self@,
    {
        match self {
            Node::UriNode { uri } => Node::UriNode { uri: uri.clone() },
            Node::LiteralNode { literal, data_type, language } => Node::LiteralNode {
                literal: literal.clone(),
                data_type: match data_type {
                    Some(t) => Some(t.clone()),
                    None => None,
                },
                language: match language {
                    Some(l) => Some(l.clone()),
                    None => None,
                },
            },
        }
    }
}

impl Node {
    /// A node for the resource that `iri` identifies.
    pub fn uri(iri: &str) -> (node: Self)
        ensures
            node@ == (NodeView::UriNode { uri: iri@ }),
    {
        Node::UriNode { uri: Resource::from(iri) }
    }

    /// A plain literal, without datatype or language tag.
    pub fn literal(value: &str) -> (node: Self)
        ensures
            node@ == (NodeView::LiteralNode { literal: value@, data_type: None, language: None }),
    {
        Node::LiteralNode { literal: value.to_owned(), data_type: None, language: None }
    }
}

} // verus!
