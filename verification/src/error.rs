//! What can stop the generation of a site.

use vstd::prelude::*;
use crate::node::{bound_uri, Node, NodeView, Solution};
use crate::search::first_true;
use crate::table::Variable;

verus! {

/// A violation of the protocol by the store: in some solution a variable was
/// left unbound, or bound to a node of the wrong kind, where the query
/// admits neither.
#[derive(Debug)]
pub struct UnexpectedNode {
    /// Which solution of the answer, counted from zero.
    pub row: usize,
    /// The variable that was read.
    pub variable: Variable,
    /// What the variable was bound to, if anything.
    pub found: Option<Node>,
}

/// An unexpected node, as plain values.
pub struct UnexpectedNodeView {
    pub row: int,
    pub variable: Seq<char>,
    pub found: Option<NodeView>,
}

impl View for UnexpectedNode {
    type V = UnexpectedNodeView;

    open spec fn view(&self) -> UnexpectedNodeView {
        UnexpectedNodeView {
            row: self.row as int,
            variable: self.variable@,
            found: match self.found {
                Some(node) => Some(node@),
                None => None,
            },
        }
    }
}

/// What solution `row` of an answer holds for `variable`, reported as
/// unexpected.
pub open spec fn unexpected(row: int, variable: Seq<char>, solution: Solution)
    -> UnexpectedNodeView {
    UnexpectedNodeView {
        row,
        variable,
        found: if solution.contains_key(variable) {
            Some(solution[variable])
        } else {
            None
        },
    }
}

/// For each solution, whether it fails to bind `variable` to a URI node.
pub open spec fn lacks_uri(rows: Seq<Solution>, variable: Seq<char>) -> Seq<bool> {
    Seq::new(rows.len(), |i: int| bound_uri(rows[i], variable) is None)
}

/// The first of the solutions `rows` that does not bind `variable` to a URI
/// node, with what it holds instead.
pub open spec fn uri_fault(rows: Seq<Solution>, variable: Seq<char>) -> Option<UnexpectedNodeView> {
    match first_true(lacks_uri(rows, variable)) {
        Some(i) => Some(unexpected(i, variable, rows[i])),
        None => None,
    }
}

} // verus!
