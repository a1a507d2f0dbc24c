use graph_store::doc::Direction;
use graph_store::file_name::file_name;
use graph_store::generator::{Action, Event, GenerationError, SiteGenerator, Stage};
use graph_store::node::Node;
use graph_store::table::{Binding, KeyEntryTable};
use graph_store::{Resource, Selection};

const BASE: &str = "urn:uuid:bc36c84d-30bf-4014-9940-255150891034";

fn iri(fragment: &str) -> String {
    format!("{}#{}", BASE, fragment)
}

fn href(fragment: &str) -> String {
    file_name(&iri(fragment)).replace(".", "&#x2E;")
}

fn table_of(variables: &[&str], rows: Vec<Vec<(&str, Node)>>) -> KeyEntryTable<Node> {
    let bindings = rows
        .into_iter()
        .map(|row| {
            Binding::from_entries(row.into_iter().map(|(name, node)| (name.to_string(), node)).collect())
        })
        .collect();
    KeyEntryTable::from(
        variables.iter().map(|name| name.to_string()).collect(),
        bindings,
        |node: &Node| node.clone(),
    )
}

fn triples() -> Vec<(Node, Node, Node)> {
    vec![
        (Node::uri(&iri("a")), Node::uri(&iri("b")), Node::literal("c")),
        (Node::uri(&iri("d")), Node::uri(&iri("e")), Node::uri(&iri("f"))),
        (Node::uri(&iri("d")), Node::uri(&iri("g")), Node::uri(&iri("a"))),
    ]
}

fn occurring_iris(store: &[(Node, Node, Node)]) -> Vec<String> {
    let mut found: Vec<String> = Vec::new();
    for (subject, predicate, object) in store {
        for node in [subject, predicate, object] {
            if let Node::UriNode { uri } = node {
                if !found.iter().any(|known| known == uri.as_str()) {
                    found.push(uri.as_str().to_string());
                }
            }
        }
    }
    found
}

fn answer(store: &[(Node, Node, Node)], query: &Selection) -> KeyEntryTable<Node> {
    if query.as_str() == Selection::of_resources_with_labels().as_str() {
        let rows = occurring_iris(store)
            .iter()
            .map(|found| vec![("resource", Node::uri(found))])
            .collect();
        return table_of(&["resource", "label"], rows);
    }
    for found in occurring_iris(store) {
        let resource = Resource::from(found.as_str());
        let node = Node::uri(&found);
        if query.as_str() == Selection::of_relations_from(&resource).as_str() {
            let rows = store
                .iter()
                .filter(|(subject, _, _)| *subject == node)
                .map(|(_, predicate, object)| {
                    vec![("predicate", predicate.clone()), ("object", object.clone())]
                })
                .collect();
            return table_of(&["predicate", "predicate_label", "object", "object_label"], rows);
        }
        if query.as_str() == Selection::of_relations_to(&resource).as_str() {
            let rows = store
                .iter()
                .filter(|(_, _, object)| *object == node)
                .map(|(subject, predicate, _)| {
                    vec![("subject", subject.clone()), ("predicate", predicate.clone())]
                })
                .collect();
            return table_of(&["subject", "subject_label", "predicate", "predicate_label"], rows);
        }
    }
    panic!("no such query: {}", query.as_str());
}

fn generate(store: &[(Node, Node, Node)]) -> Result<Vec<(String, String)>, GenerationError> {
    let mut files: Vec<(String, String)> = Vec::new();
    let (mut generator, mut action) = SiteGenerator::start();
    loop {
        let event = match action {
            Action::Select(query) => Event::Answer(answer(store, &query)),
            Action::Write { file_name, content } => {
                files.push((file_name, content));
                Event::Written
            }
            Action::Finish => {
                assert_eq!(generator.stage(), Stage::Finished);
                return Ok(files);
            }
            Action::Abort(error) => {
                assert_eq!(generator.stage(), Stage::Failed);
                return Err(error);
            }
        };
        let (next, then) = generator.step(event);
        generator = next;
        action = then;
    }
}

fn page(label: &str, items: &str) -> String {
    format!(
        "<!doctype html><html><head><title>{}</title>\
         <link href=\"main&#x2E;css\" rel=\"stylesheet\"/></head><body><h1>{}</h1><ul>{}</ul>\
         <a href=\"index&#x2E;html\">Index</a></body></html>",
        label, label, items
    )
}

fn link(fragment: &str) -> String {
    format!("<a href=\"{}\">{}</a>", href(fragment), iri(fragment))
}

#[test]
fn generation_starts_with_the_resources() {
    let (generator, action) = SiteGenerator::start();
    assert_eq!(generator.stage(), Stage::Resources);
    assert_eq!(generator.catalog().len(), 0);
    match action {
        Action::Select(query) => {
            assert_eq!(query.as_str(), Selection::of_resources_with_labels().as_str())
        }
        other => panic!("a query was expected, not {:?}", other),
    }
}

#[test]
fn site_of_three_triples() {
    let files = generate(&triples()).unwrap();
    let names: Vec<&str> = files.iter().map(|(name, _)| name.as_str()).collect();
    let expected: Vec<String> = ["a", "b", "d", "e", "f", "g"]
        .iter()
        .map(|fragment| file_name(&iri(fragment)))
        .collect();
    let mut expected_names: Vec<&str> = expected.iter().map(|name| name.as_str()).collect();
    expected_names.push("index.html");
    assert_eq!(names, expected_names);

    let page_of = |fragment: &str| -> &str {
        let name = file_name(&iri(fragment));
        files.iter().find(|(found, _)| *found == name).map(|(_, content)| content.as_str()).unwrap()
    };
    assert_eq!(
        page_of("d"),
        page(
            &iri("d"),
            &format!(
                "<li>{} \u{2192} {}</li><li>{} \u{2192} {}</li>",
                link("e"),
                link("f"),
                link("g"),
                link("a")
            )
        )
    );
    assert_eq!(
        page_of("a"),
        page(
            &iri("a"),
            &format!(
                "<li>{} \u{2192} <a>c</a></li><li>{} \u{2190} {}</li>",
                link("b"),
                link("d"),
                link("g")
            )
        )
    );
    assert_eq!(page_of("b"), page(&iri("b"), ""));
    assert_eq!(
        page_of("f"),
        page(&iri("f"), &format!("<li>{} \u{2190} {}</li>", link("d"), link("e")))
    );
    let items: String =
        ["a", "b", "d", "e", "f", "g"].iter().map(|f| format!("<li>{}</li>", link(f))).collect();
    assert_eq!(
        files.last().unwrap().1,
        format!(
            "<!doctype html><html><head><title>Index</title>\
             <link href=\"main&#x2E;css\" rel=\"stylesheet\"/></head><body><h1>Index</h1>\
             <ul>{}</ul></body></html>",
            items
        )
    );
}

#[test]
fn generating_twice_gives_the_same_files() {
    let first = generate(&triples()).unwrap();
    let second = generate(&triples()).unwrap();
    assert_eq!(first, second);
    assert_eq!(first.len(), 7);
}

#[test]
fn site_of_an_empty_store_is_its_index() {
    let files = generate(&[]).unwrap();
    assert_eq!(files.len(), 1);
    assert_eq!(files[0].0, "index.html");
    assert_eq!(
        files[0].1,
        "<!doctype html><html><head><title>Index</title>\
         <link href=\"main&#x2E;css\" rel=\"stylesheet\"/></head><body><h1>Index</h1>\
         <ul></ul></body></html>"
    );
}

#[test]
fn generation_stops_at_a_literal_resource() {
    let (generator, _) = SiteGenerator::start();
    let answer = table_of(
        &["resource", "label"],
        vec![vec![("resource", Node::uri("urn:x#a"))], vec![("resource", Node::literal("b"))]],
    );
    let (generator, action) = generator.step(Event::Answer(answer));
    assert_eq!(generator.stage(), Stage::Failed);
    match action {
        Action::Abort(GenerationError::Resources(fault)) => {
            assert_eq!(fault.row, 1);
            assert_eq!(fault.variable.name(), "resource");
            assert_eq!(fault.found, Some(Node::literal("b")));
        }
        other => panic!("the generation should have been given up, not {:?}", other),
    }
}

#[test]
fn generation_stops_at_a_relation_without_object() {
    let (generator, _) = SiteGenerator::start();
    let resources = table_of(&["resource"], vec![vec![("resource", Node::uri("urn:x#a"))]]);
    let (generator, action) = generator.step(Event::Answer(resources));
    assert_eq!(generator.stage(), Stage::RelationsFrom);
    match action {
        Action::Select(query) => assert_eq!(
            query.as_str(),
            Selection::of_relations_from(&Resource::from("urn:x#a")).as_str()
        ),
        other => panic!("a query was expected, not {:?}", other),
    }
    let from = table_of(&["predicate", "object"], vec![vec![("predicate", Node::uri("p"))]]);
    let (generator, action) = generator.step(Event::Answer(from));
    assert_eq!(generator.stage(), Stage::RelationsTo);
    match action {
        Action::Select(query) => assert_eq!(
            query.as_str(),
            Selection::of_relations_to(&Resource::from("urn:x#a")).as_str()
        ),
        other => panic!("a query was expected, not {:?}", other),
    }
    let to = table_of(&["subject", "predicate"], vec![]);
    let (generator, action) = generator.step(Event::Answer(to));
    assert_eq!(generator.stage(), Stage::Failed);
    match action {
        Action::Abort(GenerationError::Relations { resource, direction, cause }) => {
            assert_eq!(resource.as_str(), "urn:x#a");
            assert_eq!(direction, Direction::Outgoing);
            assert_eq!(cause.row, 0);
            assert_eq!(cause.variable.name(), "object");
            assert_eq!(cause.found, None);
        }
        other => panic!("the generation should have been given up, not {:?}", other),
    }
}

#[test]
fn generation_stops_at_a_relation_without_subject() {
    let (generator, _) = SiteGenerator::start();
    let resources = table_of(
        &["resource"],
        vec![vec![("resource", Node::uri("urn:x#a"))], vec![("resource", Node::uri("urn:x#b"))]],
    );
    let (generator, _) = generator.step(Event::Answer(resources));
    let (generator, _) = generator.step(Event::Answer(table_of(&[], vec![])));
    let (generator, _) = generator.step(Event::Answer(table_of(&[], vec![])));
    let (generator, action) = generator.step(Event::Written);
    assert_eq!(generator.stage(), Stage::RelationsFrom);
    match action {
        Action::Select(query) => assert_eq!(
            query.as_str(),
            Selection::of_relations_from(&Resource::from("urn:x#b")).as_str()
        ),
        other => panic!("a query was expected, not {:?}", other),
    }
    let (generator, _) = generator.step(Event::Answer(table_of(&[], vec![])));
    let to = table_of(
        &["subject", "predicate"],
        vec![
            vec![("subject", Node::uri("s")), ("predicate", Node::uri("p"))],
            vec![("predicate", Node::uri("p"))],
        ],
    );
    let (generator, action) = generator.step(Event::Answer(to));
    assert_eq!(generator.stage(), Stage::Failed);
    match action {
        Action::Abort(GenerationError::Relations { resource, direction, cause }) => {
            assert_eq!(resource.as_str(), "urn:x#b");
            assert_eq!(direction, Direction::Incoming);
            assert_eq!(cause.row, 1);
            assert_eq!(cause.variable.name(), "subject");
            assert_eq!(cause.found, None);
        }
        other => panic!("the generation should have been given up, not {:?}", other),
    }
}

#[test]
fn generation_stops_when_a_page_cannot_be_written() {
    let (generator, _) = SiteGenerator::start();
    let resources = table_of(&["resource"], vec![vec![("resource", Node::uri("abc"))]]);
    let (generator, _) = generator.step(Event::Answer(resources));
    let (generator, _) = generator.step(Event::Answer(table_of(&[], vec![])));
    let (generator, action) = generator.step(Event::Answer(table_of(&[], vec![])));
    assert_eq!(generator.stage(), Stage::Page);
    match action {
        Action::Write { file_name, .. } => assert_eq!(
            file_name,
            "ba7816bf8f01cfea414140de5dae2223b00361a396177a9cb410ff61f20015ad.html"
        ),
        other => panic!("a page was expected, not {:?}", other),
    }
    let (generator, action) = generator.step(Event::WriteFailed);
    assert_eq!(generator.stage(), Stage::Failed);
    match action {
        Action::Abort(GenerationError::Write { file_name }) => assert_eq!(
            file_name,
            "ba7816bf8f01cfea414140de5dae2223b00361a396177a9cb410ff61f20015ad.html"
        ),
        other => panic!("the generation should have been given up, not {:?}", other),
    }
}

#[test]
fn generation_stops_when_the_index_cannot_be_written() {
    let (generator, _) = SiteGenerator::start();
    let (generator, action) = generator.step(Event::Answer(table_of(&["resource"], vec![])));
    assert_eq!(generator.stage(), Stage::Index);
    assert!(matches!(action, Action::Write { ref file_name, .. } if file_name == "index.html"));
    let (generator, action) = generator.step(Event::WriteFailed);
    assert_eq!(generator.stage(), Stage::Failed);
    assert!(matches!(
        action,
        Action::Abort(GenerationError::Write { ref file_name }) if file_name == "index.html"
    ));
}

#[test]
fn generation_refuses_what_it_did_not_ask_for() {
    let (generator, _) = SiteGenerator::start();
    let (generator, action) = generator.step(Event::Written);
    assert_eq!(generator.stage(), Stage::Failed);
    assert!(matches!(action, Action::Abort(GenerationError::OutOfTurn)));
    let (generator, action) = generator.step(Event::Answer(table_of(&[], vec![])));
    assert_eq!(generator.stage(), Stage::Failed);
    assert!(matches!(action, Action::Abort(GenerationError::OutOfTurn)));

    let (generator, _) = SiteGenerator::start();
    let (generator, _) = generator.step(Event::Answer(table_of(&["resource"], vec![])));
    let (generator, action) = generator.step(Event::Written);
    assert_eq!(generator.stage(), Stage::Finished);
    assert!(matches!(action, Action::Finish));
    let (generator, action) = generator.step(Event::Written);
    assert_eq!(generator.stage(), Stage::Failed);
    assert!(matches!(action, Action::Abort(GenerationError::OutOfTurn)));
}
