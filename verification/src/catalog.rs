//! The catalog of the resources of a store: for each resource the label to
//! display and the name of the file that holds its page.

use vstd::prelude::*;
use crate::Resource;
use crate::error::{lacks_uri, uri_fault, UnexpectedNode, UnexpectedNodeView};
use crate::file_name::{file_name, file_name_of};
use crate::node::{bound_literal, bound_uri, solution_of, Node, Solution};
use crate::search::{first_true, lemma_first_true, lemma_first_true_is, lemma_first_true_none};
use crate::table::{KeyEntryTable, Variable};

verus! {

/// The variable that holds the resource in the answer to the query for the
/// resources with their labels.
pub const RESOURCE_VARIABLE: &'static str = "resource";

/// The variable that holds the label in the answer to the query for the
/// resources with their labels.
pub const LABEL_VARIABLE: &'static str = "label";

/// What stops the building of a catalog from the solutions `rows`: the first
/// of them that does not bind the resource to a URI node, with what it holds
/// instead.
pub open spec fn catalog_fault(rows: Seq<Solution>) -> Option<UnexpectedNodeView> {
    uri_fault(rows, RESOURCE_VARIABLE@)
}

/// What the catalog holds for one resource.
#[derive(Debug)]
pub struct CatalogEntry {
    resource: Resource,
    label: String,
    file_name: String,
}

/// A catalog entry, as plain values.
pub struct EntryView {
    pub resource: Seq<char>,
    pub label: Seq<char>,
    pub file_name: Seq<char>,
}

impl View for CatalogEntry {
    type V = EntryView;

    closed spec fn view(&self) -> EntryView {
        EntryView { resource: self.resource@, label: self.label@, file_name: self.file_name@ }
    }
}

impl CatalogEntry {
    /// The resource that the entry is about.
    pub fn resource(&self) -> (resource: &Resource)
        ensures
            resource@ == self@.resource,
    {
        &self.resource
    }

    /// The label to display for the resource.
    pub fn label(&self) -> (label: &str)
        ensures
            label@ == self@.label,
    {
        self.label.as_str()
    }

    /// The name of the file that holds the page of the resource.
    pub fn file_name(&self) -> (name: &str)
        ensures
            name@ == self@.file_name,
    {
        self.file_name.as_str()
    }
}

/// The entry that a solution gives rise to: the resource it names, labelled
/// by the literal that it binds the label to and, where it binds none, by
/// the resource's own IRI.
pub open spec fn entry_of(row: Solution) -> EntryView {
    let iri = bound_uri(row, RESOURCE_VARIABLE@).unwrap();
    EntryView {
        resource: iri,
        label: match bound_literal(row, LABEL_VARIABLE@) {
            Some(text) => text,
            None => iri,
        },
        file_name: file_name_of(iri),
    }
}

/// Where the entry for `resource` stands in `entries`: the first place that
/// holds it.
pub open spec fn position_of(entries: Seq<EntryView>, resource: Seq<char>) -> Option<int> {
    first_true(Seq::new(entries.len(), |i: int| entries[i].resource == resource))
}

/// `entries` with `entry` in the place of the entry for the same resource,
/// or at the end where there is none.
pub open spec fn upsert(entries: Seq<EntryView>, entry: EntryView) -> Seq<EntryView> {
    match position_of(entries, entry.resource) {
        Some(i) => entries.update(i, entry),
        None => entries.push(entry),
    }
}

/// The catalog for the solutions `rows`: one entry for each resource, in the
/// order in which the resources first occur. Where several solutions name
/// one resource, the last of them decides its label.
pub open spec fn catalog_of(rows: Seq<Solution>) -> Seq<EntryView>
    decreases rows.len(),
{
    if rows.len() == 0 {
        Seq::empty()
    } else {
        upsert(catalog_of(rows.drop_last()), entry_of(rows.last()))
    }
}

/// No resource has two entries, and each entry holds the file name that
/// belongs to its resource.
pub open spec fn well_formed(entries: Seq<EntryView>) -> bool {
    &&& forall|i: int, j: int|
        0 <= i < j < entries.len() ==> entries[i].resource != entries[j].resource
    &&& forall|i: int|
        0 <= i < entries.len() ==> (#[trigger] entries[i]).file_name == file_name_of(
            entries[i].resource,
        )
}

/// What `position_of` finds: the first place that holds the resource, or
/// nothing where no place holds it.
pub proof fn lemma_position_of(entries: Seq<EntryView>, resource: Seq<char>)
    ensures
        match position_of(entries, resource) {
            Some(i) => 0 <= i < entries.len() && entries[i].resource == resource && forall|j: int|
                0 <= j < i ==> entries[j].resource != resource,
            None => forall|j: int| 0 <= j < entries.len() ==> entries[j].resource != resource,
        },
{
    let flags = Seq::new(entries.len(), |i: int| entries[i].resource == resource);
    lemma_first_true(flags);
    match position_of(entries, resource) {
        Some(i) => {
            assert forall|j: int| 0 <= j < i implies entries[j].resource != resource by {
                assert(!flags[j]);
            }
        },
        None => {
            assert forall|j: int| 0 <= j < entries.len() implies entries[j].resource
                != resource by {
                assert(!flags[j]);
            }
        },
    }
}

/// Putting an entry into a well-formed catalog leaves it well formed.
pub proof fn lemma_upsert_well_formed(entries: Seq<EntryView>, entry: EntryView)
    requires
        well_formed(entries),
        entry.file_name == file_name_of(entry.resource),
    ensures
        well_formed(upsert(entries, entry)),
{
    lemma_position_of(entries, entry.resource);
}

/// The catalog for any solutions is well formed.
pub proof fn lemma_catalog_well_formed(rows: Seq<Solution>)
    ensures
        well_formed(catalog_of(rows)),
    decreases rows.len(),
{
    if rows.len() > 0 {
        lemma_catalog_well_formed(rows.drop_last());
        lemma_upsert_well_formed(catalog_of(rows.drop_last()), entry_of(rows.last()));
    }
}

/// The entry that `entries` holds for `resource`, if it holds one.
pub open spec fn lookup(entries: Seq<EntryView>, resource: Seq<char>) -> Option<EntryView> {
    match position_of(entries, resource) {
        Some(i) => Some(entries[i]),
        None => None,
    }
}

/// After an entry was put into a catalog, the catalog holds that entry for
/// the entry's resource, and for every other resource what it held before.
pub proof fn lemma_upsert_lookup(entries: Seq<EntryView>, entry: EntryView, resource: Seq<char>)
    ensures
        lookup(upsert(entries, entry), resource) == if resource == entry.resource {
            Some(entry)
        } else {
            lookup(entries, resource)
        },
{
    let after = upsert(entries, entry);
    lemma_position_of(entries, entry.resource);
    lemma_position_of(entries, resource);
    lemma_position_of(after, resource);
    assert forall|j: int| 0 <= j < entries.len() implies (#[trigger] after[j]).resource
        == entries[j].resource && (entries[j].resource != entry.resource ==> after[j]
        == entries[j]) by {}
    match position_of(after, resource) {
        Some(q) => {
            if q < entries.len() {
                assert(entries[q].resource == resource);
            }
        },
        None => {},
    }
    match position_of(entries, resource) {
        Some(q) => {
            assert(after[q].resource == resource);
        },
        None => {},
    }
    if resource == entry.resource {
        match position_of(entries, entry.resource) {
            Some(i) => {
                assert(after[i] == entry);
            },
            None => {
                assert(after[entries.len() as int] == entry);
            },
        }
    }
}

/// Whether some of the solutions `rows` names `resource`.
pub open spec fn names(rows: Seq<Solution>, resource: Seq<char>) -> bool {
    exists|i: int| 0 <= i < rows.len() && (#[trigger] entry_of(rows[i])).resource == resource
}

/// Whether some of `entries` is the entry for `resource`.
pub open spec fn holds(entries: Seq<EntryView>, resource: Seq<char>) -> bool {
    exists|k: int| 0 <= k < entries.len() && (#[trigger] entries[k]).resource == resource
}

/// Looking a resource up finds an entry exactly if there is one for it.
pub proof fn lemma_lookup_finds(entries: Seq<EntryView>, resource: Seq<char>)
    ensures
        lookup(entries, resource) is Some <==> holds(entries, resource),
        lookup(entries, resource) is Some ==> lookup(entries, resource)->0.resource == resource,
{
    lemma_position_of(entries, resource);
    if lookup(entries, resource) is Some {
        let k = position_of(entries, resource)->0;
        assert(entries[k].resource == resource);
    }
}

/// The catalog holds an entry for a resource exactly if some solution names
/// the resource.
pub proof fn lemma_catalog_complete(rows: Seq<Solution>, resource: Seq<char>)
    ensures
        holds(catalog_of(rows), resource) <==> names(rows, resource),
    decreases rows.len(),
{
    lemma_lookup_finds(catalog_of(rows), resource);
    if rows.len() > 0 {
        let front = rows.drop_last();
        lemma_catalog_complete(front, resource);
        lemma_lookup_finds(catalog_of(front), resource);
        lemma_upsert_lookup(catalog_of(front), entry_of(rows.last()), resource);
        if lookup(catalog_of(rows), resource) is Some {
            if entry_of(rows.last()).resource == resource {
                assert(entry_of(rows[rows.len() - 1]).resource == resource);
            } else {
                let i = choose|i: int|
                    0 <= i < front.len() && (#[trigger] entry_of(front[i])).resource == resource;
                assert(entry_of(rows[i]).resource == resource);
            }
        }
        if names(rows, resource) {
            let i = choose|i: int|
                0 <= i < rows.len() && (#[trigger] entry_of(rows[i])).resource == resource;
            if i < front.len() {
                assert(entry_of(front[i]).resource == resource);
            }
        }
    }
}

/// The catalog holds for a resource the entry of the last solution that
/// names the resource.
pub proof fn lemma_catalog_last_wins(rows: Seq<Solution>, i: int)
    requires
        0 <= i < rows.len(),
        forall|j: int|
            i < j < rows.len() ==> (#[trigger] entry_of(rows[j])).resource != entry_of(
                rows[i],
            ).resource,
    ensures
        lookup(catalog_of(rows), entry_of(rows[i]).resource) == Some(entry_of(rows[i])),
    decreases rows.len(),
{
    let front = rows.drop_last();
    let resource = entry_of(rows[i]).resource;
    lemma_upsert_lookup(catalog_of(front), entry_of(rows.last()), resource);
    if i < rows.len() - 1 {
        assert forall|j: int| i < j < front.len() implies (#[trigger] entry_of(
            front[j],
        )).resource != entry_of(front[i]).resource by {
            assert(front[j] == rows[j]);
        }
        lemma_catalog_last_wins(front, i);
        assert(entry_of(rows[rows.len() - 1]).resource != resource);
    }
}

/// A resource that no solution gives a label is labelled by its own IRI.
pub proof fn lemma_label_fallback(rows: Seq<Solution>, resource: Seq<char>)
    requires
        names(rows, resource),
        forall|i: int|
            0 <= i < rows.len() && (#[trigger] entry_of(rows[i])).resource == resource
                ==> bound_literal(rows[i], LABEL_VARIABLE@) is None,
    ensures
        lookup(catalog_of(rows), resource) is Some,
        lookup(catalog_of(rows), resource)->0.label == resource,
    decreases rows.len(),
{
    let front = rows.drop_last();
    lemma_upsert_lookup(catalog_of(front), entry_of(rows.last()), resource);
    if entry_of(rows.last()).resource == resource {
        assert(entry_of(rows[rows.len() - 1]).resource == resource);
    } else {
        let i = choose|i: int|
            0 <= i < rows.len() && (#[trigger] entry_of(rows[i])).resource == resource;
        assert(entry_of(front[i]).resource == resource);
        assert forall|k: int|
            0 <= k < front.len() && (#[trigger] entry_of(front[k])).resource
                == resource implies bound_literal(front[k], LABEL_VARIABLE@) is None by {
            assert(front[k] == rows[k]);
            assert(entry_of(rows[k]).resource == resource);
        }
        lemma_label_fallback(front, resource);
    }
}

/// The resources of a store with their labels and file names.
#[derive(Debug)]
pub struct ResourceCatalog {
    entries: Vec<CatalogEntry>,
}

impl View for ResourceCatalog {
    type V = Seq<EntryView>;

    closed spec fn view(&self) -> Seq<EntryView> {
        Seq::new(self.entries@.len(), |i: int| self.entries@[i]@)
    }
}

impl ResourceCatalog {
    /// No resource has two entries, and each entry holds the file name that
    /// belongs to its resource.
    pub open spec fn wf(&self) -> bool {
        well_formed(self@)
    }

    /// A catalog without entries.
    pub fn new() -> (catalog: Self)
        ensures
            catalog@ == Seq::<EntryView>::empty(),
            catalog.wf(),
    {
        let catalog = ResourceCatalog { entries: Vec::new() };
        assert(catalog@ == Seq::<EntryView>::empty());
        catalog
    }

    /// Builds the catalog from the answer to the query for the resources with
    /// their labels. Every solution has to bind the resource to a URI node:
    /// the first that does not is reported, with what it holds instead.
    /// Where several solutions name one resource, the last of them decides
    /// its label.
    pub fn build(table: &KeyEntryTable<Node>) -> (result: Result<ResourceCatalog, UnexpectedNode>)
        ensures
            match result {
                Ok(catalog) => {
                    &&& catalog_fault(table.solutions()) is None
                    &&& catalog@ == catalog_of(table.solutions())
                    &&& catalog.wf()
                },
                Err(e) => catalog_fault(table.solutions()) == Some(e@),
            },
    {
        let ghost rows = table.solutions();
        let resource_variable = Variable::from(RESOURCE_VARIABLE);
        let label_variable = Variable::from(LABEL_VARIABLE);
        let mut catalog = ResourceCatalog::new();
        let mut i: usize = 0;
        assert(rows.take(0) == Seq::<Solution>::empty());
        while i < table.bindings.len()
            invariant
                i <= table.bindings@.len(),
                rows == table.solutions(),
                rows.len() == table.bindings@.len(),
                resource_variable@ == RESOURCE_VARIABLE@,
                label_variable@ == LABEL_VARIABLE@,
                forall|k: int| 0 <= k < i ==> !lacks_uri(rows, RESOURCE_VARIABLE@)[k],
                catalog@ == catalog_of(rows.take(i as int)),
            decreases table.bindings@.len() - i,
        {
            let row = &table.bindings[i];
            let ghost solution = rows[i as int];
            assert(solution == solution_of(row@));
            match row.get(&resource_variable) {
                Some(Node::UriNode { uri }) => {
                    let label = match row.get(&label_variable) {
                        Some(Node::LiteralNode { literal, .. }) => literal.clone(),
                        _ => uri.as_str().to_owned(),
                    };
                    let entry = CatalogEntry {
                        resource: uri.clone(),
                        label,
                        file_name: file_name(uri.as_str()),
                    };
                    proof {
                        assert(entry@ == entry_of(solution));
                        let next = rows.take(i + 1);
                        assert(next.drop_last() == rows.take(i as int));
                        assert(next.last() == solution);
                    }
                    catalog.upsert(entry);
                },
                Some(node) => {
                    proof {
                        lemma_first_true_is(lacks_uri(rows, RESOURCE_VARIABLE@), i as int);
                    }
                    return Err(
                        UnexpectedNode {
                            row: i,
                            variable: resource_variable,
                            found: Some(node.clone()),
                        },
                    );
                },
                None => {
                    proof {
                        lemma_first_true_is(lacks_uri(rows, RESOURCE_VARIABLE@), i as int);
                    }
                    return Err(UnexpectedNode { row: i, variable: resource_variable, found: None });
                },
            }
            i += 1;
        }
        proof {
            assert(rows.take(i as int) == rows);
            lemma_catalog_well_formed(rows);
            lemma_first_true_none(lacks_uri(rows, RESOURCE_VARIABLE@));
        }
        Ok(catalog)
    }

    /// Puts `entry` in the place of the entry for the same resource, or at
    /// the end where there is none.
    fn upsert(&mut self, entry: CatalogEntry)
        ensures
            final(self)@ == upsert(old(self)@, entry@),
    {
        proof {
            lemma_position_of(self@, entry@.resource);
        }
        let ghost before = self@;
        match self.position(&entry.resource) {
            Some(i) => {
                self.entries.set(i, entry);
                assert(self@ =~= before.update(i as int, entry@));
            },
            None => {
                self.entries.push(entry);
                assert(self@ =~= before.push(entry@));
            },
        }
    }

    /// How many resources the catalog holds.
    pub fn len(&self) -> (n: usize)
        ensures
            n == self@.len(),
    {
        self.entries.len()
    }

    /// The entry in place `i`, if the catalog has that many entries.
    pub fn entry(&self, i: usize) -> (entry: Option<&CatalogEntry>)
        ensures
            match entry {
                Some(e) => i < self@.len() && e@ == self@[i as int],
                None => i >= self@.len(),
            },
    {
        if i < self.entries.len() {
            Some(&self.entries[i])
        } else {
            None
        }
    }

    /// Where the entry for `resource` stands, if there is one.
    pub fn position(&self, resource: &Resource) -> (found: Option<usize>)
        ensures
            match found {
                Some(i) => position_of(self@, resource@) == Some(i as int),
                None => position_of(self@, resource@) is None,
            },
    {
        let mut i: usize = 0;
        while i < self.entries.len()
            invariant
                i <= self.entries@.len(),
                forall|j: int| 0 <= j < i ==> self@[j].resource != resource@,
            decreases self.entries@.len() - i,
        {
            if self.entries[i].resource == *resource {
                proof {
                    assert(self@[i as int].resource == resource@);
                    lemma_position_of(self@, resource@);
                }
                return Some(i);
            }
            i += 1;
        }
        proof {
            lemma_position_of(self@, resource@);
        }
        None
    }

    /// The entry for `resource`, if the catalog holds one.
    pub fn get(&self, resource: &Resource) -> (entry: Option<&CatalogEntry>)
        ensures
            match entry {
                Some(e) => lookup(self@, resource@) == Some(e@),
                None => lookup(self@, resource@) is None,
            },
    {
        proof {
            lemma_position_of(self@, resource@);
        }
        match self.position(resource) {
            Some(i) => Some(&self.entries[i]),
            None => None,
        }
    }
}

} // verus!
