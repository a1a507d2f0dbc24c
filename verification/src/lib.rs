//! Client-side model of a remote RDF graph store and a generator of a static,
//! cross-linked HTML site describing the resources it holds.

pub mod catalog;
pub mod doc;
pub mod error;
pub mod file_name;
pub mod generator;
pub mod http;
pub mod markup;
pub mod node;
pub mod search;
pub mod table;

use vstd::prelude::*;
use crate::error::{lacks_uri, uri_fault, UnexpectedNode};
use crate::node::{bound_uri, solution_of, Node, Solution};
use crate::search::{lemma_first_true_is, lemma_first_true_none};
use crate::table::{KeyEntryTable, Variable};

verus! {

/// Any resource, identified by an IRI string.
#[derive(Hash, Debug)]
pub struct Resource(String);

impl View for Resource {
    type V = Seq<char>;

    open spec fn view(&self) -> Seq<char> {
        self.iri()
    }
}

impl Resource {
    /// The characters of the IRI.
    pub closed spec fn iri(&self) -> Seq<char> {
        self.0@
    }

    /// The IRI that identifies the resource.
    pub fn as_str(&self) -> (iri: &str)
        ensures
            iri@ == self@,
    {
        self.0.as_str()
    }
}

impl Clone for Resource {
    fn clone(&self) -> (copy: Self)
        ensures
            copy@ == self@,
    {
        Resource(self.0.clone())
    }
}

impl PartialEq for Resource {
    fn eq(&self, other: &Self) -> (equal: bool) {
        self.0 == other.0
    }
}

impl Eq for Resource {}

impl vstd::std_specs::cmp::PartialEqSpecImpl for Resource {
    open spec fn obeys_eq_spec() -> bool {
        true
    }

    open spec fn eq_spec(&self, other: &Self) -> bool {
        self@ == other@
    }
}

impl From<&str> for Resource {
    fn from(s: &str) -> (resource: Self)
        ensures
            resource@ == s@,
    {
        Resource(s.to_owned())
    }
}

/// The conversion is specified by the `ensures` of `from`, over views.
impl vstd::std_specs::convert::FromSpecImpl<&str> for Resource {
    open spec fn obeys_from_spec() -> bool {
        false
    }

    open spec fn from_spec(s: &str) -> Self {
        arbitrary()
    }
}

/// The default graph or a named graph of a graph store.
#[derive(Debug)]
pub enum Graph {
    Default,
    Named(Resource),
}

impl Graph {
    /// The resource that names the graph: none for the default graph.
    pub fn name(&self) -> (name: Option<&Resource>)
        ensures
            name == match self {
                Graph::Default => None::<&Resource>,
                Graph::Named(resource) => Some(resource),
            },
    {
        match self {
            Graph::Default => None,
            Graph::Named(resource) => Some(resource),
        }
    }
}

/// The file name under which a Turtle file is sent.
pub const TURTLE_FILE_NAME: &'static str = "file.ttl";

/// The media type of a Turtle file.
pub const TURTLE_MIME_TYPE: &'static str = "text/turtle";

/// The file name under which an RDF/XML file is sent.
pub const RDF_XML_FILE_NAME: &'static str = "file.xml";

/// The media type of an RDF/XML file.
pub const RDF_XML_MIME_TYPE: &'static str = "text/xml";

/// The content of a data file, used for importing.
#[derive(Debug)]
pub enum DataFile {
    Turtle { content: Vec<u8> },
    RdfXml { content: Vec<u8> },
}

impl DataFile {
    /// Wraps Turtle source text without checking its syntax.
    pub fn unsafe_from_turtle(s: &str) -> (file: Self)
        ensures
            file is Turtle,
            file->Turtle_content@ == vstd::utf8::encode_utf8(s@),
    {
        DataFile::Turtle { content: s.as_bytes_vec() }
    }

    /// The file name under which the file is sent to the store.
    pub fn file_name(&self) -> (name: &'static str)
        ensures
            name@ == match self {
                DataFile::Turtle { .. } => TURTLE_FILE_NAME@,
                DataFile::RdfXml { .. } => RDF_XML_FILE_NAME@,
            },
    {
        match self {
            DataFile::Turtle { .. } => TURTLE_FILE_NAME,
            DataFile::RdfXml { .. } => RDF_XML_FILE_NAME,
        }
    }

    /// The media type under which the file is sent to the store.
    pub fn mime_type(&self) -> (mime: &'static str)
        ensures
            mime@ == match self {
                DataFile::Turtle { .. } => TURTLE_MIME_TYPE@,
                DataFile::RdfXml { .. } => RDF_XML_MIME_TYPE@,
            },
    {
        match self {
            DataFile::Turtle { .. } => TURTLE_MIME_TYPE,
            DataFile::RdfXml { .. } => RDF_XML_MIME_TYPE,
        }
    }

    /// The bytes of the file.
    pub fn content(&self) -> (bytes: &[u8])
        ensures
            bytes@ == match self {
                DataFile::Turtle { content } => content@,
                DataFile::RdfXml { content } => content@,
            },
    {
        match self {
            DataFile::Turtle { content } => content.as_slice(),
            DataFile::RdfXml { content } => content.as_slice(),
        }
    }
}

/// Text of the query for a bounded sample of all triples.
pub const TRIPLES_QUERY: &'static str = "SELECT ?s ?p ?o WHERE { ?s ?p ?o } LIMIT 25";

/// Text of the query for the distinct named graphs.
pub const GRAPHS_QUERY: &'static str =
    "SELECT DISTINCT ?graph WHERE { GRAPH ?graph { ?s ?p ?o } }";

/// Text of the query for the distinct subjects that occur in any named
/// graph: a subject of several triples, or of several graphs, comes once.
pub const RESOURCES_FROM_NAMED_GRAPHS_QUERY: &'static str =
    "SELECT DISTINCT ?s WHERE { GRAPH ?g { ?s ?p ?o } }";

/// What precedes the subject's IRI in the query for the relations from a resource.
pub const RELATIONS_FROM_HEAD: &'static str =
    "PREFIX rdfs: <http://www.w3.org/2000/01/rdf-schema#>\
     \n\nSELECT ?predicate ?predicate_label ?object ?object_label\
     \nWHERE {\
     \n  GRAPH ?g1 { <";

/// What follows the subject's IRI in the query for the relations from a resource.
pub const RELATIONS_FROM_TAIL: &'static str =
    "> ?predicate ?object }\
     \n  OPTIONAL { GRAPH ?g2 { ?predicate rdfs:label ?predicate_label } }\
     \n  OPTIONAL { GRAPH ?g3 { ?object rdfs:label ?object_label } }\
     \n}";

/// What precedes the object's IRI in the query for the relations to a resource.
pub const RELATIONS_TO_HEAD: &'static str =
    "PREFIX rdfs: <http://www.w3.org/2000/01/rdf-schema#>\
     \n\nSELECT ?subject ?subject_label ?predicate ?predicate_label\
     \nWHERE {\
     \n  GRAPH ?g1 { ?subject ?predicate <";

/// What follows the object's IRI in the query for the relations to a resource.
pub const RELATIONS_TO_TAIL: &'static str =
    "> }\
     \n  OPTIONAL { GRAPH ?g2 { ?predicate rdfs:label ?predicate_label } }\
     \n  OPTIONAL { GRAPH ?g3 { ?subject rdfs:label ?subject_label } }\
     \n}";

/// Text of the query for every IRI in any position, with its label if it has one.
pub const RESOURCES_WITH_LABELS_QUERY: &'static str =
    "PREFIX rdfs: <http://www.w3.org/2000/01/rdf-schema#>\
     \n\nSELECT DISTINCT ?resource ?label\
     \nWHERE {\
     \n  GRAPH ?graph1 {\
     \n    { ?resource ?predicate ?object }\
     \n    UNION\
     \n    { ?subject ?resource ?object }\
     \n    UNION\
     \n    { ?subject ?predicate ?resource }\
     \n  } .\
     \n  OPTIONAL {\
     \n    GRAPH ?graph3 { ?resource rdfs:label ?label }\
     \n  } .\
     \n  FILTER ( isURI(?resource) )\
     \n}";

/// A query to select data.
#[derive(Debug)]
pub struct Selection {
    sparql_value: String,
}

impl View for Selection {
    type V = Seq<char>;

    open spec fn view(&self) -> Seq<char> {
        self.text()
    }
}

impl Selection {
    /// The characters of the query.
    pub closed spec fn text(&self) -> Seq<char> {
        self.sparql_value@
    }

    /// The text of the query for the relations that start at the resource
    /// that `iri` identifies.
    pub open spec fn relations_from_text(iri: Seq<char>) -> Seq<char> {
        RELATIONS_FROM_HEAD@ + iri + RELATIONS_FROM_TAIL@
    }

    /// The text of the query for the relations that end at the resource that
    /// `iri` identifies.
    pub open spec fn relations_to_text(iri: Seq<char>) -> Seq<char> {
        RELATIONS_TO_HEAD@ + iri + RELATIONS_TO_TAIL@
    }

    /// Selecting a set of triples.
    pub fn of_triples() -> (selection: Selection)
        ensures
            selection@ == TRIPLES_QUERY@,
    {
        Selection::unsafe_from(TRIPLES_QUERY)
    }

    /// Selecting the named graphs.
    pub fn of_graphs() -> (selection: Selection)
        ensures
            selection@ == GRAPHS_QUERY@,
    {
        Selection::unsafe_from(GRAPHS_QUERY)
    }

    /// Selecting the distinct subjects of the triples in named graphs.
    pub fn of_resources_from_named_graphs() -> (selection: Selection)
        ensures
            selection@ == RESOURCES_FROM_NAMED_GRAPHS_QUERY@,
    {
        Selection::unsafe_from(RESOURCES_FROM_NAMED_GRAPHS_QUERY)
    }

    /// Selecting, in every named graph, the predicates and objects of the
    /// triples with `resource` as subject, each with its label where it has one.
    pub fn of_relations_from(resource: &Resource) -> (selection: Selection)
        ensures
            selection@ == Self::relations_from_text(resource@),
    {
        let mut text = RELATIONS_FROM_HEAD.to_owned();
        text.append(resource.as_str());
        text.append(RELATIONS_FROM_TAIL);
        Selection { sparql_value: text }
    }

    /// Selecting, in every named graph, the subjects and predicates of the
    /// triples with `resource` as object, each with its label where it has one.
    pub fn of_relations_to(resource: &Resource) -> (selection: Selection)
        ensures
            selection@ == Self::relations_to_text(resource@),
    {
        let mut text = RELATIONS_TO_HEAD.to_owned();
        text.append(resource.as_str());
        text.append(RELATIONS_TO_TAIL);
        Selection { sparql_value: text }
    }

    /// Selecting every IRI that occurs as subject, predicate or object, with
    /// its label where it has one.
    pub fn of_resources_with_labels() -> (selection: Selection)
        ensures
            selection@ == RESOURCES_WITH_LABELS_QUERY@,
    {
        Selection::unsafe_from(RESOURCES_WITH_LABELS_QUERY)
    }

    /// Wraps query text without checking its syntax.
    pub fn unsafe_from(value: &str) -> (selection: Selection)
        ensures
            selection@ == value@,
    {
        Selection { sparql_value: value.to_owned() }
    }

    /// The query as text.
    pub fn as_str(&self) -> (text: &str)
        ensures
            text@ == self@,
    {
        self.sparql_value.as_str()
    }
}

/// The variable that holds the graph in the answer to the query for the
/// named graphs.
pub const GRAPH_VARIABLE: &'static str = "graph";

/// What precedes the graphs in the query that describes everything.
pub const DESCRIBE_HEAD: &'static str = "DESCRIBE ?x ";

/// What follows the graphs in the query that describes everything.
pub const DESCRIBE_TAIL: &'static str = " WHERE { ?x ?y ?z }";

/// What precedes the IRI of a graph that a query reads from.
pub const FROM_HEAD: &'static str = "FROM <";

/// What follows the IRI of a graph that a query reads from.
pub const FROM_TAIL: &'static str = ">";

/// What separates the graphs that a query reads from.
pub const FROM_SEPARATOR: &'static str = " ";

/// The clauses that make a query read from the graphs that `rows` name,
/// one for each solution, in their order.
pub open spec fn from_clauses(rows: Seq<Solution>) -> Seq<char>
    decreases rows.len(),
{
    if rows.len() == 0 {
        Seq::empty()
    } else {
        let clause = FROM_HEAD@ + bound_uri(rows.last(), GRAPH_VARIABLE@).unwrap() + FROM_TAIL@;
        if rows.len() == 1 {
            clause
        } else {
            from_clauses(rows.drop_last()) + FROM_SEPARATOR@ + clause
        }
    }
}

/// A query to describe resources.
#[derive(Debug)]
pub struct DescribeQuery {
    sparql_value: String,
}

impl View for DescribeQuery {
    type V = Seq<char>;

    open spec fn view(&self) -> Seq<char> {
        self.text()
    }
}

impl DescribeQuery {
    /// The characters of the query.
    pub closed spec fn text(&self) -> Seq<char> {
        self.sparql_value@
    }

    /// The text of the query that describes every resource of the graphs
    /// that `rows` name.
    pub open spec fn everything_text(rows: Seq<Solution>) -> Seq<char> {
        DESCRIBE_HEAD@ + from_clauses(rows) + DESCRIBE_TAIL@
    }

    /// Describing every resource of the named graphs in `graphs`, the answer
    /// to the query for the named graphs. Every solution has to bind the
    /// graph to a URI node: the first that does not is reported.
    pub fn of_everything(graphs: &KeyEntryTable<Node>) -> (result: Result<
        DescribeQuery,
        UnexpectedNode,
    >)
        ensures
            match result {
                Ok(query) => {
                    &&& uri_fault(graphs.solutions(), GRAPH_VARIABLE@) is None
                    &&& query@ == Self::everything_text(graphs.solutions())
                },
                Err(e) => uri_fault(graphs.solutions(), GRAPH_VARIABLE@) == Some(e@),
            },
    {
        let ghost rows = graphs.solutions();
        let variable = Variable::from(GRAPH_VARIABLE);
        let mut clauses = String::new();
        let mut i: usize = 0;
        assert(rows.take(0) == Seq::<Solution>::empty());
        while i < graphs.bindings.len()
            invariant
                i <= graphs.bindings@.len(),
                rows == graphs.solutions(),
                rows.len() == graphs.bindings@.len(),
                variable@ == GRAPH_VARIABLE@,
                forall|k: int| 0 <= k < i ==> !lacks_uri(rows, GRAPH_VARIABLE@)[k],
                clauses@ == from_clauses(rows.take(i as int)),
            decreases graphs.bindings@.len() - i,
        {
            let row = &graphs.bindings[i];
            let ghost solution = rows[i as int];
            assert(solution == solution_of(row@));
            match row.get(&variable) {
                Some(Node::UriNode { uri }) => {
                    proof {
                        let next = rows.take(i + 1);
                        assert(next.drop_last() == rows.take(i as int));
                        assert(next.last() == solution);
                    }
                    if i > 0 {
                        clauses.append(FROM_SEPARATOR);
                    }
                    let mut clause = FROM_HEAD.to_owned();
                    clause.append(uri.as_str());
                    clause.append(FROM_TAIL);
                    clauses.append(clause.as_str());
                },
                Some(node) => {
                    proof {
                        lemma_first_true_is(lacks_uri(rows, GRAPH_VARIABLE@), i as int);
                    }
                    return Err(UnexpectedNode { row: i, variable, found: Some(node.clone()) });
                },
                None => {
                    proof {
                        lemma_first_true_is(lacks_uri(rows, GRAPH_VARIABLE@), i as int);
                    }
                    return Err(UnexpectedNode { row: i, variable, found: None });
                },
            }
            i += 1;
        }
        proof {
            assert(rows.take(i as int) == rows);
            lemma_first_true_none(lacks_uri(rows, GRAPH_VARIABLE@));
        }
        let mut text = DESCRIBE_HEAD.to_owned();
        text.append(clauses.as_str());
        text.append(DESCRIBE_TAIL);
        Ok(DescribeQuery { sparql_value: text })
    }

    /// Wraps query text without checking its syntax.
    pub fn unsafe_from(value: &str) -> (query: DescribeQuery)
        ensures
            query@ == value@,
    {
        DescribeQuery { sparql_value: value.to_owned() }
    }

    /// The query as text.
    pub fn as_str(&self) -> (text: &str)
        ensures
            text@ == self@,
    {
        self.sparql_value.as_str()
    }
}

} // verus!
