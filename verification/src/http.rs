//! The rules of the store's HTTP interface: where a request goes, what it
//! carries, and which answers count as success. Sending is left to the caller.

use vstd::prelude::*;
use crate::Graph;

verus! {

/// The path under which datasets are created.
pub const DATASETS_PATH: &'static str = "/$/datasets";

/// The path below which each dataset is administered under its name.
pub const DATASETS_DIRECTORY: &'static str = "/$/datasets/";

/// The form field that holds the name of a dataset to create.
pub const DATASET_NAME_FIELD: &'static str = "dbName";

/// The form field that holds the kind of a dataset to create.
pub const DATASET_TYPE_FIELD: &'static str = "dbType";

/// The kind of the datasets that are created: held in memory.
pub const DATASET_TYPE: &'static str = "mem";

/// The form field that holds the files of an import.
pub const FILES_FIELD: &'static str = "files[]";

/// The query parameter that names the graph of an import.
pub const GRAPH_PARAMETER: &'static str = "graph";

/// The form field that holds the text of a query.
pub const QUERY_FIELD: &'static str = "query";

/// What follows the name of a dataset in the path of its data.
pub const DATA_SUFFIX: &'static str = "/data";

/// The status of an answer that succeeded.
pub const STATUS_OK: u16 = 200;

/// The status of an answer that created something.
pub const STATUS_CREATED: u16 = 201;

/// The status of an answer that found what should be created in place.
pub const STATUS_CONFLICT: u16 = 409;

/// What a request asks of the store.
#[derive(Clone, Copy, Debug, PartialEq, Eq, Structural)]
pub enum Operation {
    /// Make sure that a dataset exists.
    GetOrCreate,
    /// Delete a dataset.
    Delete,
    /// Import a file into a graph.
    Import,
    /// Answer a query.
    Query,
}

/// Whether an answer of the given status means that the operation succeeded.
/// A dataset that is there already is as good as one that was created.
pub open spec fn accepted(operation: Operation, status: u16) -> bool {
    match operation {
        Operation::GetOrCreate => status == STATUS_OK || status == STATUS_CONFLICT,
        Operation::Import => status == STATUS_OK || status == STATUS_CREATED,
        Operation::Delete => status == STATUS_OK,
        Operation::Query => status == STATUS_OK,
    }
}

/// Whether an answer of the given status means that the operation succeeded.
pub fn accepts(operation: Operation, status: u16) -> (accepted: bool)
    ensures
        accepted == self::accepted(operation, status),
{
    match operation {
        Operation::GetOrCreate => status == STATUS_OK || status == STATUS_CONFLICT,
        Operation::Import => status == STATUS_OK || status == STATUS_CREATED,
        Operation::Delete => status == STATUS_OK,
        Operation::Query => status == STATUS_OK,
    }
}

/// The path of the data of the dataset called `name`.
pub fn data_path(name: &str) -> (path: String)
    ensures
        path@ == "/"@ + name@ + DATA_SUFFIX@,
{
    let mut path = String::new();
    path.append("/");
    path.append(name);
    path.append(DATA_SUFFIX);
    path
}

/// The query parameters of an import into `graph`: the graph's IRI for a
/// named graph, none for the default graph.
pub fn graph_parameters(graph: &Graph) -> (parameters: Vec<(String, String)>)
    ensures
        match graph {
            Graph::Default => parameters@.len() == 0,
            Graph::Named(resource) => {
                &&& parameters@.len() == 1
                &&& parameters@[0].0@ == GRAPH_PARAMETER@
                &&& parameters@[0].1@ == resource@
            },
        },
{
    let mut parameters: Vec<(String, String)> = Vec::new();
    match graph {
        Graph::Default => {},
        Graph::Named(resource) => {
            parameters.push((GRAPH_PARAMETER.to_owned(), resource.as_str().to_owned()));
        },
    }
    parameters
}

} // verus!
