use graph_store::http::{accepts, data_path, graph_parameters, Operation};
use graph_store::{Graph, Resource};

#[test]
fn existing_dataset_is_as_good_as_a_new_one() {
    assert!(accepts(Operation::GetOrCreate, 200));
    assert!(accepts(Operation::GetOrCreate, 409));
    assert!(!accepts(Operation::GetOrCreate, 201));
    assert!(!accepts(Operation::GetOrCreate, 500));
}

#[test]
fn import_may_create() {
    assert!(accepts(Operation::Import, 200));
    assert!(accepts(Operation::Import, 201));
    assert!(!accepts(Operation::Import, 409));
    assert!(!accepts(Operation::Import, 400));
}

#[test]
fn queries_and_deletions_must_be_plain_successes() {
    for operation in [Operation::Query, Operation::Delete] {
        assert!(accepts(operation, 200));
        assert!(!accepts(operation, 201));
        assert!(!accepts(operation, 204));
        assert!(!accepts(operation, 404));
        assert!(!accepts(operation, 409));
    }
}

#[test]
fn data_of_a_dataset_lies_under_its_name() {
    assert_eq!(data_path("test"), "/test/data");
    assert_eq!(data_path(""), "//data");
}

#[test]
fn import_names_the_graph_unless_it_is_the_default() {
    assert_eq!(graph_parameters(&Graph::Default), Vec::<(String, String)>::new());
    assert_eq!(
        graph_parameters(&Graph::Named(Resource::from("g1"))),
        vec![("graph".to_string(), "g1".to_string())]
    );
}
