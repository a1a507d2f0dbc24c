//! Tabular query results: declared column variables and rows of bindings.

use vstd::prelude::*;

verus! {

/// A named output slot of a query. Two variables are the same when their
/// names are, character for character.
#[derive(Debug, Hash)]
pub struct Variable {
    name: String,
}

impl View for Variable {
    type V = Seq<char>;

    open spec fn view(&self) -> Seq<char> {
        self.spec_name()
    }
}

impl Variable {
    /// The characters of the name.
    pub closed spec fn spec_name(&self) -> Seq<char> {
        self.name@
    }

    /// The variable's name.
    pub fn name(&self) -> (name: &str)
        ensures
            name@ == self@,
    {
        self.name.as_str()
    }
}

impl Clone for Variable {
    fn clone(&self) -> (copy: Self)
        ensures
            copy@ == self@,
    {
        Variable { name: self.name.clone() }
    }
}

impl PartialEq for Variable {
    fn eq(&self, other: &Self) -> (equal: bool) {
        self.name == other.name
    }
}

impl Eq for Variable {}

impl vstd::std_specs::cmp::PartialEqSpecImpl for Variable {
    open spec fn obeys_eq_spec() -> bool {
        true
    }

    open spec fn eq_spec(&self, other: &Self) -> bool {
        self@ == other@
    }
}

impl From<&str> for Variable {
    fn from(s: &str) -> (variable: Self)
        ensures
            variable@ == s@,
    {
        Variable { name: s.to_owned() }
    }
}

/// The conversion is specified by the `ensures` of `from`, over views.
impl vstd::std_specs::convert::FromSpecImpl<&str> for Variable {
    open spec fn obeys_from_spec() -> bool {
        false
    }

    open spec fn from_spec(s: &str) -> Self {
        arbitrary()
    }
}

/// The map that a list of named values stands for: a later entry replaces
/// an earlier one of the same name.
pub open spec fn entries_map<A>(entries: Seq<(String, A)>) -> Map<Seq<char>, A>
    decreases entries.len(),
{
    if entries.len() == 0 {
        Map::empty()
    } else {
        entries_map(entries.drop_last()).insert(entries.last().0@, entries.last().1)
    }
}

/// One solution of a query: an assignment of values to some variables.
/// A variable that the solution leaves unbound has no entry.
#[derive(Debug)]
pub struct Binding<A> {
    entries: Vec<(Variable, A)>,
}

impl<A> View for Binding<A> {
    type V = Map<Seq<char>, A>;

    closed spec fn view(&self) -> Map<Seq<char>, A> {
        Map::new(
            |name: Seq<char>| exists|i: int| self.binds_at(i, name),
            |name: Seq<char>| self.entries@[choose|i: int| self.binds_at(i, name)].1,
        )
    }
}

impl<A> Binding<A> {
    /// Entry `i` is the one for the variable called `name`.
    spec fn binds_at(&self, i: int, name: Seq<char>) -> bool {
        0 <= i < self.entries@.len() && self.entries@[i].0@ == name
    }

    /// No variable has two entries.
    #[verifier::type_invariant]
    spec fn distinct_names(&self) -> bool {
        forall|i: int, j: int|
            0 <= i < j < self.entries@.len() ==> self.entries@[i].0@ != self.entries@[j].0@
    }

    /// With distinct names, the entry found for a name is the one the view reports.
    proof fn lemma_entry(&self, i: int, name: Seq<char>)
        requires
            self.distinct_names(),
            self.binds_at(i, name),
        ensures
            self@.contains_key(name),
            self@[name] == self.entries@[i].1,
    {
        let j = choose|j: int| self.binds_at(j, name);
        assert(i == j);
    }

    /// A solution that binds nothing.
    pub fn new() -> (binding: Self)
        ensures
            binding@ == Map::<Seq<char>, A>::empty(),
    {
        let binding = Binding { entries: Vec::new() };
        assert(binding@ =~= Map::<Seq<char>, A>::empty());
        binding
    }

    /// A solution with the given entries. Where a name occurs twice, the
    /// later entry stands.
    pub fn from_entries(entries: Vec<(String, A)>) -> (binding: Self)
        ensures
            binding@ == entries_map(entries@),
    {
        let ghost all = entries@;
        let mut binding: Binding<A> = Binding::new();
        for entry in it: entries
            invariant
                it.seq() == all,
                binding@ == entries_map(all.take(it.index())),
        {
            let ghost done = it.seq().take(it.index());
            let ghost next = it.seq().take(it.index() + 1);
            assert(next.drop_last() == done);
            assert(next.last() == entry);
            binding.insert(Variable { name: entry.0 }, entry.1);
        }
        assert(all.take(all.len() as int) == all);
        binding
    }

    /// Where the entry for `variable` stands, if there is one.
    fn position(&self, variable: &Variable) -> (found: Option<usize>)
        ensures
            match found {
                Some(i) => self.binds_at(i as int, variable@),
                None => forall|i: int| !self.binds_at(i, variable@),
            },
    {
        let mut i: usize = 0;
        while i < self.entries.len()
            invariant
                i <= self.entries@.len(),
                forall|j: int| 0 <= j < i ==> !self.binds_at(j, variable@),
            decreases self.entries@.len() - i,
        {
            if self.entries[i].0.name == variable.name {
                return Some(i);
            }
            i += 1;
        }
        None
    }

    /// The value bound to `variable`, if the solution binds it.
    pub fn get(&self, variable: &Variable) -> (value: Option<&A>)
        ensures
            match value {
                Some(v) => self@.contains_key(variable@) && *v == self@[variable@],
                None => !self@.contains_key(variable@),
            },
    {
        proof {
            use_type_invariant(self);
        }
        match self.position(variable) {
            Some(i) => {
                assert(self.binds_at(i as int, variable@));
                Some(&self.entries[i].1)
            },
            None => None,
        }
    }

    /// Whether the solution binds `variable`.
    pub fn contains_key(&self, variable: &Variable) -> (bound: bool)
        ensures
            bound == self@.contains_key(variable@),
    {
        self.position(variable).is_some()
    }

    /// Binds `variable` to `value` and returns what it was bound to before.
    pub fn insert(&mut self, variable: Variable, value: A) -> (previous: Option<A>)
        ensures
            final(self)@ == old(self)@.insert(variable@, value),
            previous == if old(self)@.contains_key(variable@) {
                Some(old(self)@[variable@])
            } else {
                None::<A>
            },
    {
        proof {
            use_type_invariant(&*self);
        }
        let ghost before = *self;
        let found = self.position(&variable);
        let mut entries: Vec<(Variable, A)> = Vec::new();
        std::mem::swap(&mut self.entries, &mut entries);
        let previous = match found {
            Some(i) => {
                assert(before.binds_at(i as int, variable@));
                let mut entry = (variable, value);
                std::mem::swap(&mut entries[i], &mut entry);
                assert(entries@ == before.entries@.update(i as int, (variable, value)));
                Some(entry.1)
            },
            None => {
                entries.push((variable, value));
                None
            },
        };
        assert forall|i: int, j: int| 0 <= i < j < entries@.len() implies entries@[i].0@
            != entries@[j].0@ by {
            assert(!before.binds_at(i, variable@) || !before.binds_at(j, variable@));
        }
        std::mem::swap(&mut self.entries, &mut entries);
        proof {
            let last = before.entries@.len() as int;
            let after = *self;
            assert forall|name: Seq<char>| #[trigger]
                after@.contains_key(name) == before@.insert(variable@, value).contains_key(
                    name,
                ) && (after@.contains_key(name) ==> after@[name] == before@.insert(
                    variable@,
                    value,
                )[name]) by {
                if after@.contains_key(name) {
                    let j = choose|j: int| after.binds_at(j, name);
                    after.lemma_entry(j, name);
                    if name != variable@ {
                        before.lemma_entry(j, name);
                    }
                } else if before@.contains_key(name) {
                    let j = choose|j: int| before.binds_at(j, name);
                    assert(after.binds_at(j, name));
                } else if name == variable@ {
                    match found {
                        Some(i) => assert(after.binds_at(i as int, name)),
                        None => assert(after.binds_at(last, name)),
                    }
                }
            }
            assert(self@ =~= before@.insert(variable@, value));
        }
        previous
    }
}

/// The names that a list of strings holds, in order.
pub open spec fn names_of(variables: Seq<String>) -> Seq<Seq<char>> {
    Seq::new(variables.len(), |i: int| variables[i]@)
}

/// The result of a query: the variables it declares, in order, and one
/// binding for each solution.
#[derive(Debug)]
pub struct KeyEntryTable<A> {
    pub variables: Vec<Variable>,
    pub bindings: Vec<Binding<A>>,
}

impl<A> KeyEntryTable<A> {
    /// The names of the declared variables, in order.
    pub open spec fn columns(&self) -> Seq<Seq<char>> {
        Seq::new(self.variables@.len(), |i: int| self.variables@[i]@)
    }

    /// The solutions, each as a map from a variable's name to its value.
    pub open spec fn rows(&self) -> Seq<Map<Seq<char>, A>> {
        Seq::new(self.bindings@.len(), |i: int| self.bindings@[i]@)
    }

    /// No solution binds a variable that the table does not declare.
    pub open spec fn wf(&self) -> bool {
        forall|i: int, name: Seq<char>|
            0 <= i < self.rows().len() && #[trigger] self.rows()[i].contains_key(name)
                ==> self.columns().contains(name)
    }

    /// Builds a table from the names of the variables and the raw solutions,
    /// passing every value bound to a declared variable through `transform`.
    /// A solution keeps what it binds of the declared variables, and nothing
    /// else: it may bind fewer than all of them.
    pub fn from<B, F: Fn(&B) -> A>(
        variables: Vec<String>,
        bindings: Vec<Binding<B>>,
        transform: F,
    ) -> (table: Self)
        requires
            forall|i: int, name: Seq<char>|
                0 <= i < bindings@.len() && #[trigger] bindings@[i]@.contains_key(name)
                    && names_of(variables@).contains(name) ==> call_requires(
                    transform,
                    (&bindings@[i]@[name],),
                ),
        ensures
            table.columns() == names_of(variables@),
            table.rows().len() == bindings@.len(),
            forall|i: int, name: Seq<char>|
                0 <= i < bindings@.len() ==> (#[trigger] table.rows()[i].contains_key(name) <==> (
                    bindings@[i]@.contains_key(name) && names_of(variables@).contains(name))),
            forall|i: int, name: Seq<char>|
                0 <= i < bindings@.len() && #[trigger] table.rows()[i].contains_key(name)
                    ==> call_ensures(transform, (&bindings@[i]@[name],), table.rows()[i][name]),
            table.wf(),
    {
        let ghost names = names_of(variables@);
        let mut columns: Vec<Variable> = Vec::new();
        for name in it: variables
            invariant
                columns@.len() == it.index(),
                forall|j: int| 0 <= j < columns@.len() ==> columns@[j]@ == it.seq()[j]@,
        {
            columns.push(Variable { name });
        }
        assert(names == Seq::new(columns@.len(), |c: int| columns@[c]@));
        let mut rows: Vec<Binding<A>> = Vec::new();
        let mut i: usize = 0;
        while i < bindings.len()
            invariant
                i <= bindings@.len(),
                rows@.len() == i,
                names == Seq::new(columns@.len(), |c: int| columns@[c]@),
                forall|k: int, name: Seq<char>|
                    0 <= k < bindings@.len() && #[trigger] bindings@[k]@.contains_key(name)
                        && names.contains(name) ==> call_requires(
                        transform,
                        (&bindings@[k]@[name],),
                    ),
                forall|k: int, name: Seq<char>|
                    0 <= k < i ==> (#[trigger] rows@[k]@.contains_key(name) <==> (
                        bindings@[k]@.contains_key(name) && names.contains(name))),
                forall|k: int, name: Seq<char>|
                    0 <= k < i && #[trigger] rows@[k]@.contains_key(name) ==> call_ensures(
                        transform,
                        (&bindings@[k]@[name],),
                        rows@[k]@[name],
                    ),
            decreases bindings@.len() - i,
        {
            let row = Self::convert(&columns, &bindings[i], &transform);
            rows.push(row);
            i += 1;
        }
        KeyEntryTable { variables: columns, bindings: rows }
    }

    /// What a raw solution binds of the given variables, each value passed
    /// through `transform`.
    fn convert<B, F: Fn(&B) -> A>(columns: &Vec<Variable>, raw: &Binding<B>, transform: &F) -> (row:
        Binding<A>)
        requires
            forall|name: Seq<char>| #[trigger]
                raw@.contains_key(name) && Seq::new(
                    columns@.len(),
                    |c: int| columns@[c]@,
                ).contains(name) ==> call_requires(*transform, (&raw@[name],)),
        ensures
            forall|name: Seq<char>| #[trigger]
                row@.contains_key(name) <==> (raw@.contains_key(name) && Seq::new(
                    columns@.len(),
                    |c: int| columns@[c]@,
                ).contains(name)),
            forall|name: Seq<char>| #[trigger]
                row@.contains_key(name) ==> call_ensures(*transform, (&raw@[name],), row@[name]),
    {
        let ghost names = Seq::new(columns@.len(), |c: int| columns@[c]@);
        let mut row: Binding<A> = Binding::new();
        let mut j: usize = 0;
        assert(names.take(0) == Seq::<Seq<char>>::empty());
        while j < columns.len()
            invariant
                j <= columns@.len(),
                names == Seq::new(columns@.len(), |c: int| columns@[c]@),
                forall|name: Seq<char>| #[trigger]
                    raw@.contains_key(name) && names.contains(name) ==> call_requires(
                        *transform,
                        (&raw@[name],),
                    ),
                forall|name: Seq<char>| #[trigger]
                    row@.contains_key(name) <==> (raw@.contains_key(name) && names.take(
                        j as int,
                    ).contains(name)),
                forall|name: Seq<char>| #[trigger]
                    row@.contains_key(name) ==> call_ensures(
                        *transform,
                        (&raw@[name],),
                        row@[name],
                    ),
            decreases columns@.len() - j,
        {
            let column = &columns[j];
            proof {
                assert(names[j as int] == column@);
                assert(names.take(j + 1) == names.take(j as int).push(column@));
                assert forall|name: Seq<char>|
                    names.take(j + 1).contains(name) <==> (names.take(j as int).contains(name)
                        || name == column@) by {
                    if names.take(j as int).contains(name) {
                        let c = choose|c: int|
                            0 <= c < j && names.take(j as int)[c] == name;
                        assert(names.take(j + 1)[c] == name);
                    }
                    if name == column@ {
                        assert(names.take(j + 1)[j as int] == name);
                    }
                }
            }
            if let Some(value) = raw.get(column) {
                row.insert(column.clone(), transform(value));
            }
            j += 1;
        }
        assert(names.take(j as int) == names);
        row
    }
}

} // verus!