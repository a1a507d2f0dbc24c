//! The pages of the site: one for each resource, with the relations that
//! start and end at it, and an index of all resources.

use vstd::prelude::*;
use crate::catalog::{
    catalog_of, entry_of, holds, lemma_catalog_complete, lemma_catalog_well_formed,
    lemma_label_fallback, lemma_position_of, lookup, names, well_formed, EntryView,
    ResourceCatalog, LABEL_VARIABLE,
};
use crate::file_name::{
    file_name_of, hex_string, lemma_shared_file_name_is_a_collision, sha256_digest,
};
use crate::error::{unexpected, UnexpectedNode, UnexpectedNodeView};
use crate::markup::{
    anchor, anchor_markup, attribute_markup, escape_attribute, escape_text, text_markup,
};
use crate::node::{bound_literal, solution_of, Node, NodeView, Solution};
use crate::search::{first_true, lemma_first_true_is, lemma_first_true_none};
use crate::table::{KeyEntryTable, Variable};

verus! {

/// The variable that holds the subject of a relation.
pub const SUBJECT_VARIABLE: &'static str = "subject";

/// The variable that holds the predicate of a relation.
pub const PREDICATE_VARIABLE: &'static str = "predicate";

/// The variable that holds the object of a relation.
pub const OBJECT_VARIABLE: &'static str = "object";

/// What stands between the predicate and the object of a relation that
/// starts at the resource of the page.
pub const OUTGOING_ARROW: &'static str = " \u{2192} ";

/// What stands between the subject and the predicate of a relation that
/// ends at the resource of the page.
pub const INCOMING_ARROW: &'static str = " \u{2190} ";

/// The text shown in place of a resource that the catalog does not hold.
pub const PLACEHOLDER: &'static str = "noprops";

/// The name of the file that holds the index.
pub const INDEX_FILE: &'static str = "index.html";

/// The title of the index, and the text of the link that leads back to it.
pub const INDEX_TITLE: &'static str = "Index";

/// The stylesheet that every page refers to.
pub const STYLESHEET: &'static str = "main.css";

/// What every page starts with.
pub const DOCTYPE: &'static str = "<!doctype html>";

/// What a node that takes part in a relation is shown as.
#[derive(Debug)]
pub enum Link {
    /// A resource of the catalog: a hyperlink to its page, with its label.
    Known { file_name: String, label: String },
    /// A resource that the catalog does not hold: a placeholder.
    Unknown,
    /// A literal: its text.
    Literal { text: String },
}

/// A link, as plain values.
pub enum LinkView {
    Known { file_name: Seq<char>, label: Seq<char> },
    Unknown,
    Literal { text: Seq<char> },
}

impl View for Link {
    type V = LinkView;

    open spec fn view(&self) -> LinkView {
        match self {
            Link::Known { file_name, label } => LinkView::Known {
                file_name: file_name@,
                label: label@,
            },
            Link::Unknown => LinkView::Unknown,
            Link::Literal { text } => LinkView::Literal { text: text@ },
        }
    }
}

/// What a node is shown as, given the catalog.
pub open spec fn link_for(catalog: Seq<EntryView>, node: NodeView) -> LinkView {
    match node {
        NodeView::UriNode { uri } => match lookup(catalog, uri) {
            Some(entry) => LinkView::Known { file_name: entry.file_name, label: entry.label },
            None => LinkView::Unknown,
        },
        NodeView::LiteralNode { literal, .. } => LinkView::Literal { text: literal },
    }
}

/// The HTML of a link: a hyperlink for a resource of the catalog, and an
/// anchor without a target around the placeholder or the literal's text.
pub open spec fn link_markup(link: LinkView) -> Seq<char> {
    match link {
        LinkView::Known { file_name, label } => anchor_markup(Some(file_name), label),
        LinkView::Unknown => anchor_markup(None, PLACEHOLDER@),
        LinkView::Literal { text } => anchor_markup(None, text),
    }
}

/// How the nodes of a relation are shown: a resource of the catalog as a
/// hyperlink to the file of its page, with its label as text; a resource
/// that the catalog does not hold as the placeholder, without a target; a
/// literal as its text, without a target.
pub proof fn lemma_link_resolution(catalog: Seq<EntryView>, node: NodeView)
    requires
        well_formed(catalog),
    ensures
        match node {
            NodeView::UriNode { uri } => match lookup(catalog, uri) {
                Some(entry) => {
                    &&& entry.resource == uri
                    &&& link_markup(link_for(catalog, node)) == anchor_markup(
                        Some(file_name_of(uri)),
                        entry.label,
                    )
                },
                None => link_markup(link_for(catalog, node)) == anchor_markup(None, PLACEHOLDER@),
            },
            NodeView::LiteralNode { literal, .. } => link_markup(link_for(catalog, node))
                == anchor_markup(None, literal),
        },
{
    match node {
        NodeView::UriNode { uri } => {
            lemma_position_of(catalog, uri);
        },
        NodeView::LiteralNode { .. } => {},
    }
}

impl Link {
    /// What `node` is shown as, given the catalog.
    pub fn resolve(catalog: &ResourceCatalog, node: &Node) -> (link: Link)
        ensures
            link@ == link_for(catalog@, node@),
    {
        match node {
            Node::UriNode { uri } => match catalog.get(uri) {
                Some(entry) => Link::Known {
                    file_name: entry.file_name().to_owned(),
                    label: entry.label().to_owned(),
                },
                None => Link::Unknown,
            },
            Node::LiteralNode { literal, .. } => Link::Literal { text: literal.clone() },
        }
    }

    /// The HTML of the link.
    pub fn render(&self) -> (html: String)
        ensures
            html@ == link_markup(self@),
    {
        match self {
            Link::Known { file_name, label } => anchor(Some(file_name.as_str()), label.as_str()),
            Link::Unknown => anchor(None, PLACEHOLDER),
            Link::Literal { text } => anchor(None, text.as_str()),
        }
    }
}

/// The side of a resource on which a relation lies.
#[derive(Clone, Copy, Debug, PartialEq, Eq, Structural)]
pub enum Direction {
    /// The relation starts at the resource: it has a predicate and an object.
    Outgoing,
    /// The relation ends at the resource: it has a subject and a predicate.
    Incoming,
}

/// The variable whose node a list item shows first.
pub open spec fn first_variable(direction: Direction) -> Seq<char> {
    match direction {
        Direction::Outgoing => PREDICATE_VARIABLE@,
        Direction::Incoming => SUBJECT_VARIABLE@,
    }
}

/// The variable whose node a list item shows last.
pub open spec fn second_variable(direction: Direction) -> Seq<char> {
    match direction {
        Direction::Outgoing => OBJECT_VARIABLE@,
        Direction::Incoming => PREDICATE_VARIABLE@,
    }
}

/// The arrow between the two nodes of a list item.
pub open spec fn arrow(direction: Direction) -> Seq<char> {
    match direction {
        Direction::Outgoing => OUTGOING_ARROW@,
        Direction::Incoming => INCOMING_ARROW@,
    }
}

/// The variable that keeps `row` from being shown as a relation: the first
/// of the two it needs that it leaves unbound.
pub open spec fn missing_variable(row: Solution, direction: Direction) -> Option<Seq<char>> {
    if !row.contains_key(first_variable(direction)) {
        Some(first_variable(direction))
    } else if !row.contains_key(second_variable(direction)) {
        Some(second_variable(direction))
    } else {
        None
    }
}

/// The list item for one relation.
pub open spec fn edge_markup(catalog: Seq<EntryView>, row: Solution, direction: Direction) -> Seq<
    char,
> {
    "<li>"@ + link_markup(link_for(catalog, row[first_variable(direction)])) + text_markup(
        arrow(direction),
    ) + link_markup(link_for(catalog, row[second_variable(direction)])) + "</li>"@
}

/// The list items for the relations `rows`: one for each, in their order.
pub open spec fn edge_items(catalog: Seq<EntryView>, rows: Seq<Solution>, direction: Direction)
    -> Seq<Seq<char>> {
    Seq::new(rows.len(), |i: int| edge_markup(catalog, rows[i], direction))
}

/// The list items for the relations `rows`, one after the other.
pub open spec fn edges_markup(catalog: Seq<EntryView>, rows: Seq<Solution>, direction: Direction)
    -> Seq<char> {
    edge_items(catalog, rows, direction).flatten()
}

/// For each solution, whether it leaves a variable unbound that a relation
/// needs.
pub open spec fn lacks_variable(rows: Seq<Solution>, direction: Direction) -> Seq<bool> {
    Seq::new(rows.len(), |i: int| missing_variable(rows[i], direction) is Some)
}

/// What stops the rendering of the relations `rows`: the first of them that
/// leaves a needed variable unbound.
pub open spec fn edges_fault(rows: Seq<Solution>, direction: Direction) -> Option<
    UnexpectedNodeView,
> {
    match first_true(lacks_variable(rows, direction)) {
        Some(i) => Some(unexpected(i, missing_variable(rows[i], direction)->0, rows[i])),
        None => None,
    }
}

/// The list items for the relations in `table`, in their order. Every
/// solution has to bind the two variables of a relation on the given side:
/// the first that leaves one unbound is reported.
pub fn render_edges(catalog: &ResourceCatalog, table: &KeyEntryTable<Node>, direction: Direction)
    -> (result: Result<String, UnexpectedNode>)
    ensures
        match result {
            Ok(html) => {
                &&& edges_fault(table.solutions(), direction) is None
                &&& html@ == edges_markup(catalog@, table.solutions(), direction)
            },
            Err(e) => edges_fault(table.solutions(), direction) == Some(e@),
        },
{
    let ghost rows = table.solutions();
    let (first, second, between) = match direction {
        Direction::Outgoing => (
            Variable::from(PREDICATE_VARIABLE),
            Variable::from(OBJECT_VARIABLE),
            escape_text(OUTGOING_ARROW),
        ),
        Direction::Incoming => (
            Variable::from(SUBJECT_VARIABLE),
            Variable::from(PREDICATE_VARIABLE),
            escape_text(INCOMING_ARROW),
        ),
    };
    let ghost items = edge_items(catalog@, rows, direction);
    let mut html = String::new();
    let mut i: usize = 0;
    assert(items.take(0) == Seq::<Seq<char>>::empty());
    while i < table.bindings.len()
        invariant
            i <= table.bindings@.len(),
            rows == table.solutions(),
            rows.len() == table.bindings@.len(),
            first@ == first_variable(direction),
            second@ == second_variable(direction),
            between@ == text_markup(arrow(direction)),
            items == edge_items(catalog@, rows, direction),
            forall|k: int| 0 <= k < i ==> !lacks_variable(rows, direction)[k],
            html@ == items.take(i as int).flatten(),
        decreases table.bindings@.len() - i,
    {
        let row = &table.bindings[i];
        let ghost solution = rows[i as int];
        assert(solution == solution_of(row@));
        let subject = match row.get(&first) {
            Some(node) => node,
            None => {
                proof {
                    lemma_first_true_is(lacks_variable(rows, direction), i as int);
                }
                return Err(UnexpectedNode { row: i, variable: first, found: None });
            },
        };
        let object = match row.get(&second) {
            Some(node) => node,
            None => {
                proof {
                    lemma_first_true_is(lacks_variable(rows, direction), i as int);
                }
                return Err(UnexpectedNode { row: i, variable: second, found: None });
            },
        };
        let mut item = String::new();
        item.append("<li>");
        item.append(Link::resolve(catalog, subject).render().as_str());
        item.append(between.as_str());
        item.append(Link::resolve(catalog, object).render().as_str());
        item.append("</li>");
        assert(item@ == edge_markup(catalog@, solution, direction));
        proof {
            assert(items.take(i + 1) == items.take(i as int).push(item@));
            items.take(i as int).lemma_flatten_push(item@);
        }
        html.append(item.as_str());
        i += 1;
    }
    proof {
        assert(items.take(i as int) == items);
        lemma_first_true_none(lacks_variable(rows, direction));
    }
    Ok(html)
}

/// The `head` element of a page with the given title.
pub open spec fn head_markup(title: Seq<char>) -> Seq<char> {
    "<head><title>"@ + text_markup(title) + "</title><link href=\""@ + attribute_markup(
        STYLESHEET@,
    ) + "\" rel=\"stylesheet\"/></head>"@
}

/// The page of a resource with the given label, around the list items for
/// the relations that start and end at it.
pub open spec fn page_markup(label: Seq<char>, outgoing: Seq<char>, incoming: Seq<char>) -> Seq<
    char,
> {
    DOCTYPE@ + "<html>"@ + head_markup(label) + "<body><h1>"@ + text_markup(label) + "</h1><ul>"@
        + outgoing + incoming + "</ul>"@ + anchor_markup(Some(INDEX_FILE@), INDEX_TITLE@)
        + "</body></html>"@
}

/// The list item of the index for one resource: a hyperlink to its page,
/// with its label.
pub open spec fn index_item(entry: EntryView) -> Seq<char> {
    "<li>"@ + anchor_markup(Some(entry.file_name), entry.label) + "</li>"@
}

/// The list items of the index: one for each entry of the catalog, in the
/// catalog's order.
pub open spec fn index_items(catalog: Seq<EntryView>) -> Seq<Seq<char>> {
    Seq::new(catalog.len(), |i: int| index_item(catalog[i]))
}

/// The index page for the catalog.
pub open spec fn index_markup(catalog: Seq<EntryView>) -> Seq<char> {
    DOCTYPE@ + "<html>"@ + head_markup(INDEX_TITLE@) + "<body><h1>"@ + text_markup(INDEX_TITLE@)
        + "</h1><ul>"@ + index_items(catalog).flatten() + "</ul></body></html>"@
}

/// The index of the catalog for the solutions `rows` has one item for each
/// resource that the solutions name: none is left out, none occurs twice,
/// and there is no other item.
pub proof fn lemma_index_complete(rows: Seq<Solution>)
    ensures
        index_items(catalog_of(rows)).len() == catalog_of(rows).len(),
        forall|k: int|
            0 <= k < catalog_of(rows).len() ==> #[trigger] index_items(catalog_of(rows))[k]
                == index_item(catalog_of(rows)[k]),
        forall|j: int, k: int|
            0 <= j < k < catalog_of(rows).len() ==> catalog_of(rows)[j].resource != catalog_of(
                rows,
            )[k].resource,
        forall|resource: Seq<char>|
            #[trigger] holds(catalog_of(rows), resource) <==> names(rows, resource),
{
    lemma_catalog_well_formed(rows);
    assert forall|resource: Seq<char>| #[trigger]
        holds(catalog_of(rows), resource) <==> names(rows, resource) by {
        lemma_catalog_complete(rows, resource);
    }
}

/// A resource that no solution gives a label stands in the index under its
/// own IRI.
pub proof fn lemma_unlabelled_index_item(rows: Seq<Solution>, resource: Seq<char>)
    requires
        names(rows, resource),
        forall|i: int|
            0 <= i < rows.len() && (#[trigger] entry_of(rows[i])).resource == resource
                ==> bound_literal(rows[i], LABEL_VARIABLE@) is None,
    ensures
        lookup(catalog_of(rows), resource) is Some,
        index_item(lookup(catalog_of(rows), resource)->0) == "<li>"@ + anchor_markup(
            Some(file_name_of(resource)),
            resource,
        ) + "</li>"@,
{
    lemma_label_fallback(rows, resource);
    lemma_catalog_well_formed(rows);
    lemma_position_of(catalog_of(rows), resource);
}

/// No page has the name of the index: a page's name holds an even number of
/// digits before its suffix.
pub proof fn lemma_page_is_not_the_index(iri: Seq<char>)
    ensures
        file_name_of(iri) != INDEX_FILE@,
{
    reveal_strlit("index.html");
    reveal_strlit(".html");
    let digits = hex_string(sha256_digest(vstd::utf8::encode_utf8(iri)));
    assert(file_name_of(iri).len() == digits.len() + 5);
}

/// Two entries of a catalog have the same file name only where SHA-256 gives
/// the distinct UTF-8 forms of their IRIs the same digest.
pub proof fn lemma_pages_share_no_file(catalog: Seq<EntryView>, j: int, k: int)
    requires
        well_formed(catalog),
        0 <= j < k < catalog.len(),
        catalog[j].file_name == catalog[k].file_name,
    ensures
        vstd::utf8::encode_utf8(catalog[j].resource) != vstd::utf8::encode_utf8(
            catalog[k].resource,
        ),
        sha256_digest(vstd::utf8::encode_utf8(catalog[j].resource)) == sha256_digest(
            vstd::utf8::encode_utf8(catalog[k].resource),
        ),
{
    lemma_shared_file_name_is_a_collision(catalog[j].resource, catalog[k].resource);
}

/// The `head` element of a page with the given title.
fn render_head(title: &str) -> (html: String)
    ensures
        html@ == head_markup(title@),
{
    let mut html = String::new();
    html.append("<head><title>");
    html.append(escape_text(title).as_str());
    html.append("</title><link href=\"");
    html.append(escape_attribute(STYLESHEET).as_str());
    html.append("\" rel=\"stylesheet\"/></head>");
    html
}

/// What stops the rendering of a page: a fault among the relations that
/// start at its resource or, where there is none, among those that end at it.
pub open spec fn page_fault(outgoing: Seq<Solution>, incoming: Seq<Solution>) -> Option<
    (Direction, UnexpectedNodeView),
> {
    match edges_fault(outgoing, Direction::Outgoing) {
        Some(fault) => Some((Direction::Outgoing, fault)),
        None => match edges_fault(incoming, Direction::Incoming) {
            Some(fault) => Some((Direction::Incoming, fault)),
            None => None,
        },
    }
}

/// The page of a resource with the given label and relations.
pub open spec fn page_of(
    catalog: Seq<EntryView>,
    label: Seq<char>,
    outgoing: Seq<Solution>,
    incoming: Seq<Solution>,
) -> Seq<char> {
    page_markup(
        label,
        edges_markup(catalog, outgoing, Direction::Outgoing),
        edges_markup(catalog, incoming, Direction::Incoming),
    )
}

/// Renders the page of a resource: its label as title and heading, a list
/// of the relations that start at it and of those that end at it, and a
/// link back to the index. A fault in the relations is reported with the
/// side on which it lies.
pub fn render_page(
    catalog: &ResourceCatalog,
    label: &str,
    relations_from: &KeyEntryTable<Node>,
    relations_to: &KeyEntryTable<Node>,
) -> (result: Result<String, (Direction, UnexpectedNode)>)
    ensures
        match result {
            Ok(html) => {
                &&& page_fault(
                    relations_from.solutions(),
                    relations_to.solutions(),
                ) is None
                &&& html@ == page_of(
                    catalog@,
                    label@,
                    relations_from.solutions(),
                    relations_to.solutions(),
                )
            },
            Err(e) => page_fault(
                relations_from.solutions(),
                relations_to.solutions(),
            ) == Some((e.0, e.1@)),
        },
{
    let outgoing = match render_edges(catalog, relations_from, Direction::Outgoing) {
        Ok(html) => html,
        Err(fault) => {
            return Err((Direction::Outgoing, fault));
        },
    };
    let incoming = match render_edges(catalog, relations_to, Direction::Incoming) {
        Ok(html) => html,
        Err(fault) => {
            return Err((Direction::Incoming, fault));
        },
    };
    let mut html = String::new();
    html.append(DOCTYPE);
    html.append("<html>");
    html.append(render_head(label).as_str());
    html.append("<body><h1>");
    html.append(escape_text(label).as_str());
    html.append("</h1><ul>");
    html.append(outgoing.as_str());
    html.append(incoming.as_str());
    html.append("</ul>");
    html.append(anchor(Some(INDEX_FILE), INDEX_TITLE).as_str());
    html.append("</body></html>");
    Ok(html)
}

/// Renders the index: a list with one hyperlink for each entry of the
/// catalog, in the catalog's order.
pub fn render_index(catalog: &ResourceCatalog) -> (html: String)
    ensures
        html@ == index_markup(catalog@),
{
    let ghost list = index_items(catalog@);
    let mut items = String::new();
    let mut i: usize = 0;
    assert(list.take(0) == Seq::<Seq<char>>::empty());
    while i < catalog.len()
        invariant
            i <= catalog@.len(),
            list == index_items(catalog@),
            items@ == list.take(i as int).flatten(),
        decreases catalog@.len() - i,
    {
        let entry = catalog.entry(i).unwrap();
        let mut item = String::new();
        item.append("<li>");
        item.append(anchor(Some(entry.file_name()), entry.label()).as_str());
        item.append("</li>");
        proof {
            assert(list.take(i + 1) == list.take(i as int).push(item@));
            list.take(i as int).lemma_flatten_push(item@);
        }
        items.append(item.as_str());
        i += 1;
    }
    assert(list.take(i as int) == list);
    let mut html = String::new();
    html.append(DOCTYPE);
    html.append("<html>");
    html.append(render_head(INDEX_TITLE).as_str());
    html.append("<body><h1>");
    html.append(escape_text(INDEX_TITLE).as_str());
    html.append("</h1><ul>");
    html.append(items.as_str());
    html.append("</ul></body></html>");
    html
}

} // verus!
