//! The generation of a site, step by step. The generator decides what is to
//! be done next: a query to put to the store, or a file to write. Whoever
//! runs it does that, and hands back what came of it.

use vstd::prelude::*;
use crate::{Resource, Selection, RESOURCES_WITH_LABELS_QUERY};
use crate::catalog::{
    catalog_fault, catalog_of, lemma_catalog_well_formed, well_formed, EntryView, ResourceCatalog,
};
use crate::doc::{
    index_markup, page_fault, page_of, render_index, render_page, Direction, INDEX_FILE,
};
use crate::error::{UnexpectedNode, UnexpectedNodeView};
use crate::node::{Node, Solution};
use crate::table::KeyEntryTable;

verus! {

/// Why a generation was given up.
#[derive(Debug)]
pub enum GenerationError {
    /// The answer to the query for the resources violates the protocol.
    Resources(UnexpectedNode),
    /// The answer to a query for the relations of a resource violates the
    /// protocol.
    Relations { resource: Resource, direction: Direction, cause: UnexpectedNode },
    /// A file could not be written.
    Write { file_name: String },
    /// The generator was handed something that it had not asked for.
    OutOfTurn,
}

/// A generation error, as plain values.
pub enum GenerationErrorView {
    Resources(UnexpectedNodeView),
    Relations { resource: Seq<char>, direction: Direction, cause: UnexpectedNodeView },
    Write { file_name: Seq<char> },
    OutOfTurn,
}

impl View for GenerationError {
    type V = GenerationErrorView;

    open spec fn view(&self) -> GenerationErrorView {
        match self {
            GenerationError::Resources(cause) => GenerationErrorView::Resources(cause@),
            GenerationError::Relations { resource, direction, cause } => {
                GenerationErrorView::Relations {
                    resource: resource@,
                    direction: *direction,
                    cause: cause@,
                }
            },
            GenerationError::Write { file_name } => GenerationErrorView::Write {
                file_name: file_name@,
            },
            GenerationError::OutOfTurn => GenerationErrorView::OutOfTurn,
        }
    }
}

/// What the generator asks for next.
#[derive(Debug)]
pub enum Action {
    /// Put the query to the store and hand back the answer.
    Select(Selection),
    /// Write the content to the file of that name and report how it went.
    Write { file_name: String, content: String },
    /// The site is complete.
    Finish,
    /// The generation is given up: what was written so far is no site.
    Abort(GenerationError),
}

/// An action, as plain values.
pub enum ActionView {
    Select(Seq<char>),
    Write { file_name: Seq<char>, content: Seq<char> },
    Finish,
    Abort(GenerationErrorView),
}

impl View for Action {
    type V = ActionView;

    open spec fn view(&self) -> ActionView {
        match self {
            Action::Select(selection) => ActionView::Select(selection@),
            Action::Write { file_name, content } => ActionView::Write {
                file_name: file_name@,
                content: content@,
            },
            Action::Finish => ActionView::Finish,
            Action::Abort(error) => ActionView::Abort(error@),
        }
    }
}

/// What came of the last action.
#[derive(Debug)]
pub enum Event {
    /// The store's answer to the query.
    Answer(KeyEntryTable<Node>),
    /// The file was written.
    Written,
    /// The file could not be written.
    WriteFailed,
}

/// An event, as plain values.
pub enum EventView {
    Answer(Seq<Solution>),
    Written,
    WriteFailed,
}

impl View for Event {
    type V = EventView;

    open spec fn view(&self) -> EventView {
        match self {
            Event::Answer(table) => EventView::Answer(table.solutions()),
            Event::Written => EventView::Written,
            Event::WriteFailed => EventView::WriteFailed,
        }
    }
}

/// How far a generation has come.
#[derive(Clone, Copy, Debug, PartialEq, Eq, Structural)]
pub enum Stage {
    /// Waiting for the resources with their labels.
    Resources,
    /// Waiting for the relations that start at the current resource.
    RelationsFrom,
    /// Waiting for the relations that end at the current resource.
    RelationsTo,
    /// Waiting for the page of the current resource to be written.
    Page,
    /// Waiting for the index to be written.
    Index,
    /// The site is complete.
    Finished,
    /// The generation was given up.
    Failed,
}

/// The state of a generation, as plain values.
pub struct GeneratorView {
    /// How far the generation has come.
    pub stage: Stage,
    /// The catalog, once the resources are known.
    pub catalog: Seq<EntryView>,
    /// The place in the catalog of the current resource.
    pub position: int,
    /// The relations that start at the current resource, while those that
    /// end at it are awaited.
    pub outgoing: Option<Seq<Solution>>,
}

/// The state in which a generation starts.
pub open spec fn initial() -> GeneratorView {
    GeneratorView { stage: Stage::Resources, catalog: Seq::empty(), position: 0, outgoing: None }
}

/// Turning to the resource in place `position` of the catalog: its relations
/// are asked for or, past the last resource, the index is written.
pub open spec fn turn_to(catalog: Seq<EntryView>, position: int) -> (GeneratorView, ActionView) {
    if position < catalog.len() {
        (
            GeneratorView { stage: Stage::RelationsFrom, catalog, position, outgoing: None },
            ActionView::Select(Selection::relations_from_text(catalog[position].resource)),
        )
    } else {
        (
            GeneratorView { stage: Stage::Index, catalog, position, outgoing: None },
            ActionView::Write { file_name: INDEX_FILE@, content: index_markup(catalog) },
        )
    }
}

/// Giving up from `state` because of `error`.
pub open spec fn give_up(state: GeneratorView, error: GenerationErrorView) -> (
    GeneratorView,
    ActionView,
) {
    (
        GeneratorView {
            stage: Stage::Failed,
            catalog: state.catalog,
            position: state.position,
            outgoing: None,
        },
        ActionView::Abort(error),
    )
}

/// The state that follows `state` on `event`, and what is to be done next.
pub open spec fn next(state: GeneratorView, event: EventView) -> (GeneratorView, ActionView) {
    let current = state.catalog[state.position];
    match (state.stage, event) {
        (Stage::Resources, EventView::Answer(rows)) => match catalog_fault(rows) {
            Some(fault) => give_up(state, GenerationErrorView::Resources(fault)),
            None => turn_to(catalog_of(rows), 0),
        },
        (Stage::RelationsFrom, EventView::Answer(rows)) => (
            GeneratorView {
                stage: Stage::RelationsTo,
                catalog: state.catalog,
                position: state.position,
                outgoing: Some(rows),
            },
            ActionView::Select(Selection::relations_to_text(current.resource)),
        ),
        (Stage::RelationsTo, EventView::Answer(rows)) => match page_fault(
            state.outgoing.unwrap(),
            rows,
        ) {
            Some((direction, cause)) => give_up(
                state,
                GenerationErrorView::Relations { resource: current.resource, direction, cause },
            ),
            None => (
                GeneratorView {
                    stage: Stage::Page,
                    catalog: state.catalog,
                    position: state.position,
                    outgoing: None,
                },
                ActionView::Write {
                    file_name: current.file_name,
                    content: page_of(
                        state.catalog,
                        current.label,
                        state.outgoing.unwrap(),
                        rows,
                    ),
                },
            ),
        },
        (Stage::Page, EventView::Written) => turn_to(state.catalog, state.position + 1),
        (Stage::Page, EventView::WriteFailed) => give_up(
            state,
            GenerationErrorView::Write { file_name: current.file_name },
        ),
        (Stage::Index, EventView::Written) => (
            GeneratorView {
                stage: Stage::Finished,
                catalog: state.catalog,
                position: state.position,
                outgoing: None,
            },
            ActionView::Finish,
        ),
        (Stage::Index, EventView::WriteFailed) => give_up(
            state,
            GenerationErrorView::Write { file_name: INDEX_FILE@ },
        ),
        _ => give_up(state, GenerationErrorView::OutOfTurn),
    }
}

/// What holds of the state of every generation: the catalog is well formed,
/// the current resource is one of the catalog while its relations or its
/// page are awaited, and the relations that start at it are kept exactly
/// while those that end at it are awaited.
pub open spec fn consistent(state: GeneratorView) -> bool {
    &&& well_formed(state.catalog)
    &&& 0 <= state.position <= state.catalog.len()
    &&& (state.stage == Stage::RelationsFrom || state.stage == Stage::RelationsTo || state.stage
        == Stage::Page) ==> state.position < state.catalog.len()
    &&& state.outgoing is Some <==> state.stage == Stage::RelationsTo
}

/// Every step leads from a consistent state to a consistent state.
pub proof fn lemma_next_consistent(state: GeneratorView, event: EventView)
    requires
        consistent(state),
    ensures
        consistent(next(state, event).0),
{
    match (state.stage, event) {
        (Stage::Resources, EventView::Answer(rows)) => {
            lemma_catalog_well_formed(rows);
        },
        _ => {},
    }
}

/// What comes of an action when the store, which answers the query of text
/// `q` with `store(q)`, is asked and every file can be written. Nothing
/// comes of an action that ends the generation.
pub open spec fn outcome(store: spec_fn(Seq<char>) -> Seq<Solution>, action: ActionView) -> Option<
    EventView,
> {
    match action {
        ActionView::Select(query) => Some(EventView::Answer(store(query))),
        ActionView::Write { .. } => Some(EventView::Written),
        ActionView::Finish => None,
        ActionView::Abort(_) => None,
    }
}

/// The actions of a generation that is in `state` and has `action` to do
/// next, up to its end or, where that is further away, up to `steps` more
/// actions.
pub open spec fn run(
    store: spec_fn(Seq<char>) -> Seq<Solution>,
    state: GeneratorView,
    action: ActionView,
    steps: nat,
) -> Seq<ActionView>
    decreases steps,
{
    match outcome(store, action) {
        Some(event) => if steps == 0 {
            seq![action]
        } else {
            seq![action] + run(
                store,
                next(state, event).0,
                next(state, event).1,
                (steps - 1) as nat,
            )
        },
        None => seq![action],
    }
}

/// What is to be done for the resources of the catalog from place
/// `position` on and, after the last of them, for the index: for each
/// resource the two queries for its relations and the writing of its page,
/// the first fault among the relations ending it all, and then the writing
/// of the index.
pub open spec fn plan_from(
    store: spec_fn(Seq<char>) -> Seq<Solution>,
    catalog: Seq<EntryView>,
    position: int,
) -> Seq<ActionView>
    decreases catalog.len() - position,
{
    if 0 <= position < catalog.len() {
        let current = catalog[position];
        let from_query = Selection::relations_from_text(current.resource);
        let to_query = Selection::relations_to_text(current.resource);
        let queries = seq![ActionView::Select(from_query), ActionView::Select(to_query)];
        match page_fault(store(from_query), store(to_query)) {
            Some((direction, cause)) => queries.push(
                ActionView::Abort(
                    GenerationErrorView::Relations { resource: current.resource, direction, cause },
                ),
            ),
            None => queries.push(
                ActionView::Write {
                    file_name: current.file_name,
                    content: page_of(
                        catalog,
                        current.label,
                        store(from_query),
                        store(to_query),
                    ),
                },
            ) + plan_from(store, catalog, position + 1),
        }
    } else {
        seq![
            ActionView::Write { file_name: INDEX_FILE@, content: index_markup(catalog) },
            ActionView::Finish,
        ]
    }
}

/// What is to be done to generate the site of a store: the query for the
/// resources and, unless the answer is at fault, what is to be done for each
/// resource of the catalog and for the index.
pub open spec fn plan(store: spec_fn(Seq<char>) -> Seq<Solution>) -> Seq<ActionView> {
    let query = ActionView::Select(RESOURCES_WITH_LABELS_QUERY@);
    let rows = store(RESOURCES_WITH_LABELS_QUERY@);
    match catalog_fault(rows) {
        Some(fault) => seq![query, ActionView::Abort(GenerationErrorView::Resources(fault))],
        None => seq![query] + plan_from(store, catalog_of(rows), 0),
    }
}

/// From the moment at which it turns to a resource, a generation does what
/// is planned for that resource and the ones after it.
pub proof fn lemma_run_from(
    store: spec_fn(Seq<char>) -> Seq<Solution>,
    catalog: Seq<EntryView>,
    position: int,
    steps: nat,
)
    requires
        0 <= position <= catalog.len(),
        steps >= 3 * (catalog.len() - position) + 1,
    ensures
        run(store, turn_to(catalog, position).0, turn_to(catalog, position).1, steps) == plan_from(
            store,
            catalog,
            position,
        ),
    decreases catalog.len() - position,
{
    let (state, action) = turn_to(catalog, position);
    if position < catalog.len() {
        let current = catalog[position];
        let from_rows = store(Selection::relations_from_text(current.resource));
        let to_rows = store(Selection::relations_to_text(current.resource));
        let (second_state, second) = next(state, EventView::Answer(from_rows));
        let (third_state, third) = next(second_state, EventView::Answer(to_rows));
        assert(run(store, state, action, steps) == seq![action] + run(
            store,
            second_state,
            second,
            (steps - 1) as nat,
        ));
        assert(run(store, second_state, second, (steps - 1) as nat) == seq![second] + run(
            store,
            third_state,
            third,
            (steps - 2) as nat,
        ));
        match page_fault(from_rows, to_rows) {
            Some(_) => {
                assert(run(store, third_state, third, (steps - 2) as nat) == seq![third]);
                assert(seq![action] + (seq![second] + seq![third]) =~= seq![action, second].push(
                    third,
                ));
            },
            None => {
                let (fourth_state, fourth) = next(third_state, EventView::Written);
                assert((fourth_state, fourth) == turn_to(catalog, position + 1));
                assert(run(store, third_state, third, (steps - 2) as nat) == seq![third] + run(
                    store,
                    fourth_state,
                    fourth,
                    (steps - 3) as nat,
                ));
                lemma_run_from(store, catalog, position + 1, (steps - 3) as nat);
                let rest = plan_from(store, catalog, position + 1);
                assert(seq![action] + (seq![second] + (seq![third] + rest)) =~= seq![
                    action,
                    second,
                ].push(third) + rest);
            },
        }
    } else {
        let (last_state, last) = next(state, EventView::Written);
        assert(run(store, state, action, steps) == seq![action] + run(
            store,
            last_state,
            last,
            (steps - 1) as nat,
        ));
        assert(run(store, last_state, last, (steps - 1) as nat) == seq![last]);
        assert(seq![action] + seq![last] =~= seq![action, last]);
    }
}

/// A generation whose queries the store answers and whose files can all be
/// written does what is planned, and nothing else: which queries are put,
/// which files are written and what they hold depends on the store's
/// answers alone.
pub proof fn lemma_run_follows_plan(store: spec_fn(Seq<char>) -> Seq<Solution>, steps: nat)
    requires
        steps >= 3 * catalog_of(store(RESOURCES_WITH_LABELS_QUERY@)).len() + 2,
    ensures
        run(store, initial(), ActionView::Select(RESOURCES_WITH_LABELS_QUERY@), steps) == plan(
            store,
        ),
{
    let query = ActionView::Select(RESOURCES_WITH_LABELS_QUERY@);
    let rows = store(RESOURCES_WITH_LABELS_QUERY@);
    let (state, action) = next(initial(), EventView::Answer(rows));
    assert(run(store, initial(), query, steps) == seq![query] + run(
        store,
        state,
        action,
        (steps - 1) as nat,
    ));
    match catalog_fault(rows) {
        Some(_) => {
            assert(run(store, state, action, (steps - 1) as nat) == seq![action]);
            assert(seq![query] + seq![action] =~= seq![query, action]);
        },
        None => {
            lemma_run_from(store, catalog_of(rows), 0, (steps - 1) as nat);
        },
    }
}

/// A generation in progress.
#[derive(Debug)]
pub struct SiteGenerator {
    stage: Stage,
    catalog: ResourceCatalog,
    position: usize,
    outgoing: Option<KeyEntryTable<Node>>,
}

impl View for SiteGenerator {
    type V = GeneratorView;

    closed spec fn view(&self) -> GeneratorView {
        GeneratorView {
            stage: self.stage,
            catalog: self.catalog@,
            position: self.position as int,
            outgoing: match self.outgoing {
                Some(table) => Some(table.solutions()),
                None => None,
            },
        }
    }
}

impl SiteGenerator {
    /// Every generator is in a consistent state.
    #[verifier::type_invariant]
    spec fn is_consistent(&self) -> bool {
        consistent(self@)
    }

    /// Starts a generation: the first thing to do is to ask the store for
    /// its resources with their labels.
    pub fn start() -> (begun: (SiteGenerator, Action))
        ensures
            begun.0@ == initial(),
            begun.1@ == ActionView::Select(RESOURCES_WITH_LABELS_QUERY@),
    {
        let generator = SiteGenerator {
            stage: Stage::Resources,
            catalog: ResourceCatalog::new(),
            position: 0,
            outgoing: None,
        };
        (generator, Action::Select(Selection::of_resources_with_labels()))
    }

    /// How far the generation has come.
    pub fn stage(&self) -> (stage: Stage)
        ensures
            stage == self@.stage,
    {
        self.stage
    }

    /// The catalog: empty until the resources are known.
    pub fn catalog(&self) -> (catalog: &ResourceCatalog)
        ensures
            catalog@ == self@.catalog,
            catalog.wf(),
    {
        proof {
            use_type_invariant(self);
        }
        &self.catalog
    }

    /// Takes what came of the last action and says what is to be done next.
    /// An event that the last action cannot have led to, and any event after
    /// the end, ends the generation as given up.
    pub fn step(self, event: Event) -> (result: (SiteGenerator, Action))
        ensures
            (result.0@, result.1@) == next(self@, event@),
            consistent(result.0@),
    {
        proof {
            use_type_invariant(&self);
        }
        let SiteGenerator { stage, catalog, position, outgoing } = self;
        match (stage, event) {
            (Stage::Resources, Event::Answer(table)) => match ResourceCatalog::build(&table) {
                Ok(found) => Self::turn_to(found, 0),
                Err(fault) => Self::give_up(catalog, position, GenerationError::Resources(fault)),
            },
            (Stage::RelationsFrom, Event::Answer(table)) => {
                let query = Selection::of_relations_to(catalog.entry(position).unwrap().resource());
                (
                    SiteGenerator {
                        stage: Stage::RelationsTo,
                        catalog,
                        position,
                        outgoing: Some(table),
                    },
                    Action::Select(query),
                )
            },
            (Stage::RelationsTo, Event::Answer(table)) => {
                let relations_from = outgoing.unwrap();
                let entry = catalog.entry(position).unwrap();
                match render_page(&catalog, entry.label(), &relations_from, &table) {
                    Ok(content) => {
                        let file_name = entry.file_name().to_owned();
                        (
                            SiteGenerator { stage: Stage::Page, catalog, position, outgoing: None },
                            Action::Write { file_name, content },
                        )
                    },
                    Err(fault) => {
                        let error = GenerationError::Relations {
                            resource: entry.resource().clone(),
                            direction: fault.0,
                            cause: fault.1,
                        };
                        Self::give_up(catalog, position, error)
                    },
                }
            },
            (Stage::Page, Event::Written) => {
                let count = catalog.len();
                assert(position < count);
                Self::turn_to(catalog, position + 1)
            },
            (Stage::Page, Event::WriteFailed) => {
                let file_name = catalog.entry(position).unwrap().file_name().to_owned();
                Self::give_up(catalog, position, GenerationError::Write { file_name })
            },
            (Stage::Index, Event::Written) => (
                SiteGenerator { stage: Stage::Finished, catalog, position, outgoing: None },
                Action::Finish,
            ),
            (Stage::Index, Event::WriteFailed) => Self::give_up(
                catalog,
                position,
                GenerationError::Write { file_name: INDEX_FILE.to_owned() },
            ),
            _ => Self::give_up(catalog, position, GenerationError::OutOfTurn),
        }
    }

    /// Turns to the resource in place `position` of the catalog.
    fn turn_to(catalog: ResourceCatalog, position: usize) -> (result: (SiteGenerator, Action))
        requires
            catalog.wf(),
            position <= catalog@.len(),
        ensures
            (result.0@, result.1@) == turn_to(catalog@, position as int),
            consistent(result.0@),
    {
        if position < catalog.len() {
            let query = Selection::of_relations_from(catalog.entry(position).unwrap().resource());
            (
                SiteGenerator { stage: Stage::RelationsFrom, catalog, position, outgoing: None },
                Action::Select(query),
            )
        } else {
            let content = render_index(&catalog);
            (
                SiteGenerator { stage: Stage::Index, catalog, position, outgoing: None },
                Action::Write { file_name: INDEX_FILE.to_owned(), content },
            )
        }
    }

    /// Gives the generation up because of `error`.
    fn give_up(catalog: ResourceCatalog, position: usize, error: GenerationError) -> (result: (
        SiteGenerator,
        Action,
    ))
        requires
            catalog.wf(),
            position <= catalog@.len(),
        ensures
            result.0@ == (GeneratorView {
                stage: Stage::Failed,
                catalog: catalog@,
                position: position as int,
                outgoing: None,
            }),
            result.1@ == ActionView::Abort(error@),
            consistent(result.0@),
    {
        (
            SiteGenerator { stage: Stage::Failed, catalog, position, outgoing: None },
            Action::Abort(error),
        )
    }
}

} // verus!
