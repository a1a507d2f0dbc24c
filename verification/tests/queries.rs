use graph_store::node::Node;
use graph_store::table::{Binding, KeyEntryTable};
use graph_store::{DataFile, DescribeQuery, Graph, Resource, Selection};

fn table_of(variables: &[&str], rows: Vec<Vec<(&str, Node)>>) -> KeyEntryTable<Node> {
    let bindings = rows
        .into_iter()
        .map(|row| {
            Binding::from_entries(row.into_iter().map(|(name, node)| (name.to_string(), node)).collect())
        })
        .collect();
    KeyEntryTable::from(
        variables.iter().map(|name| name.to_string()).collect(),
        bindings,
        |node: &Node| node.clone(),
    )
}

#[test]
fn resource_is_its_iri() {
    let resource = Resource::from("urn:x:a");
    assert_eq!(resource.as_str(), "urn:x:a");
    assert_eq!(resource, Resource::from("urn:x:a"));
    assert_ne!(resource, Resource::from("urn:x:A"));
    assert_eq!(resource.clone(), resource);
}

#[test]
fn nodes_are_equal_when_all_they_hold_is() {
    assert_eq!(Node::uri("a"), Node::uri("a"));
    assert_ne!(Node::uri("a"), Node::uri("b"));
    assert_ne!(Node::uri("a"), Node::literal("a"));
    assert_eq!(Node::literal("a"), Node::literal("a").clone());
    let tagged = Node::LiteralNode {
        literal: "a".to_string(),
        data_type: None,
        language: Some("en".to_string()),
    };
    let typed = Node::LiteralNode {
        literal: "a".to_string(),
        data_type: Some(Resource::from("urn:x#t")),
        language: None,
    };
    assert_ne!(tagged, Node::literal("a"));
    assert_ne!(typed, Node::literal("a"));
    assert_ne!(tagged, typed);
    assert_eq!(tagged.clone(), tagged);
    assert_eq!(typed.clone(), typed);
}

#[test]
fn graph_is_default_or_named() {
    assert!(Graph::Default.name().is_none());
    let named = Graph::Named(Resource::from("g1"));
    assert_eq!(named.name().map(|r| r.as_str()), Some("g1"));
}

#[test]
fn turtle_file_holds_the_bytes_of_the_text() {
    let file = DataFile::unsafe_from_turtle("<#a> <#b> \"\u{e9}\" .");
    match &file {
        DataFile::Turtle { content } => {
            assert_eq!(content.as_slice(), "<#a> <#b> \"\u{e9}\" .".as_bytes())
        }
        DataFile::RdfXml { .. } => panic!("a Turtle file was asked for"),
    }
    assert_eq!(file.file_name(), "file.ttl");
    assert_eq!(file.mime_type(), "text/turtle");
    assert_eq!(file.content(), "<#a> <#b> \"\u{e9}\" .".as_bytes());
}

#[test]
fn rdf_xml_file_names_its_kind() {
    let file = DataFile::RdfXml { content: vec![60, 47, 62] };
    assert_eq!(file.file_name(), "file.xml");
    assert_eq!(file.mime_type(), "text/xml");
    assert_eq!(file.content(), &[60u8, 47, 62][..]);
}

#[test]
fn selection_of_triples() {
    assert_eq!(
        Selection::of_triples().as_str(),
        "SELECT ?s ?p ?o WHERE { ?s ?p ?o } LIMIT 25"
    );
}

#[test]
fn selection_of_graphs() {
    assert_eq!(
        Selection::of_graphs().as_str(),
        "SELECT DISTINCT ?graph WHERE { GRAPH ?graph { ?s ?p ?o } }"
    );
}

#[test]
fn selection_of_resources_from_named_graphs() {
    assert_eq!(
        Selection::of_resources_from_named_graphs().as_str(),
        "SELECT DISTINCT ?s WHERE { GRAPH ?g { ?s ?p ?o } }"
    );
}

#[test]
fn selection_of_relations_from() {
    assert_eq!(
        Selection::of_relations_from(&Resource::from("urn:x#d")).as_str(),
        "PREFIX rdfs: <http://www.w3.org/2000/01/rdf-schema#>

SELECT ?predicate ?predicate_label ?object ?object_label
WHERE {
  GRAPH ?g1 { <urn:x#d> ?predicate ?object }
  OPTIONAL { GRAPH ?g2 { ?predicate rdfs:label ?predicate_label } }
  OPTIONAL { GRAPH ?g3 { ?object rdfs:label ?object_label } }
}"
    );
}

#[test]
fn selection_of_relations_to() {
    assert_eq!(
        Selection::of_relations_to(&Resource::from("urn:x#a")).as_str(),
        "PREFIX rdfs: <http://www.w3.org/2000/01/rdf-schema#>

SELECT ?subject ?subject_label ?predicate ?predicate_label
WHERE {
  GRAPH ?g1 { ?subject ?predicate <urn:x#a> }
  OPTIONAL { GRAPH ?g2 { ?predicate rdfs:label ?predicate_label } }
  OPTIONAL { GRAPH ?g3 { ?subject rdfs:label ?subject_label } }
}"
    );
}

#[test]
fn selection_of_resources_with_labels() {
    assert_eq!(
        Selection::of_resources_with_labels().as_str(),
        "PREFIX rdfs: <http://www.w3.org/2000/01/rdf-schema#>

SELECT DISTINCT ?resource ?label
WHERE {
  GRAPH ?graph1 {
    { ?resource ?predicate ?object }
    UNION
    { ?subject ?resource ?object }
    UNION
    { ?subject ?predicate ?resource }
  } .
  OPTIONAL {
    GRAPH ?graph3 { ?resource rdfs:label ?label }
  } .
  FILTER ( isURI(?resource) )
}"
    );
}

#[test]
fn queries_take_any_text() {
    assert_eq!(Selection::unsafe_from("ASK { }").as_str(), "ASK { }");
    assert_eq!(Selection::unsafe_from("").as_str(), "");
    assert_eq!(
        DescribeQuery::unsafe_from("DESCRIBE ?x\nWHERE {\n  ?x ?y ?z\n}").as_str(),
        "DESCRIBE ?x\nWHERE {\n  ?x ?y ?z\n}"
    );
}

#[test]
fn describe_everything_reads_from_each_graph() {
    let graphs = table_of(
        &["graph"],
        vec![vec![("graph", Node::uri("g1"))], vec![("graph", Node::uri("urn:g:2"))]],
    );
    assert_eq!(
        DescribeQuery::of_everything(&graphs).unwrap().as_str(),
        "DESCRIBE ?x FROM <g1> FROM <urn:g:2> WHERE { ?x ?y ?z }"
    );
}

#[test]
fn describe_everything_of_one_graph() {
    let graphs = table_of(&["graph"], vec![vec![("graph", Node::uri("g1"))]]);
    assert_eq!(
        DescribeQuery::of_everything(&graphs).unwrap().as_str(),
        "DESCRIBE ?x FROM <g1> WHERE { ?x ?y ?z }"
    );
}

#[test]
fn describe_everything_without_graphs() {
    let graphs = table_of(&["graph"], vec![]);
    assert_eq!(
        DescribeQuery::of_everything(&graphs).unwrap().as_str(),
        "DESCRIBE ?x  WHERE { ?x ?y ?z }"
    );
}

#[test]
fn describe_everything_reports_a_literal_graph() {
    let graphs = table_of(
        &["graph"],
        vec![vec![("graph", Node::uri("g1"))], vec![("graph", Node::literal("g2"))]],
    );
    let fault = DescribeQuery::of_everything(&graphs).unwrap_err();
    assert_eq!(fault.row, 1);
    assert_eq!(fault.variable.name(), "graph");
    assert_eq!(fault.found, Some(Node::literal("g2")));
}

#[test]
fn describe_everything_reports_an_unbound_graph() {
    let graphs = table_of(&["graph"], vec![vec![], vec![("graph", Node::literal("g2"))]]);
    let fault = DescribeQuery::of_everything(&graphs).unwrap_err();
    assert_eq!(fault.row, 0);
    assert_eq!(fault.variable.name(), "graph");
    assert_eq!(fault.found, None);
}
