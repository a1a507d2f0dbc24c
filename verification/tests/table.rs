use graph_store::table::{Binding, KeyEntryTable, Variable};

#[test]
fn can_create_tables() {
    let vars = vec!["a".to_string(), "b".to_string()];
    let bindings = vec![
        Binding::from_entries(vec![("a".to_string(), "c"), ("b".to_string(), "d")]),
        Binding::from_entries(vec![("b".to_string(), "f"), ("a".to_string(), "e")]),
    ];
    let table = KeyEntryTable::from(vars, bindings, |value: &&str| *value);
    println!("Result: {:?}", table);
}

#[test]
fn can_iterate() {
    let vars = vec!["a".to_string(), "b".to_string()];
    let bindings = vec![
        Binding::from_entries(vec![("a".to_string(), "c"), ("b".to_string(), "d")]),
        Binding::from_entries(vec![("b".to_string(), "f"), ("a".to_string(), "e")]),
    ];
    let table = KeyEntryTable::from(vars, bindings, |value: &&str| *value);
    let mut header = String::new();
    for v in &table.variables {
        header.push_str(&format!("|{:?}", v.name()));
    }
    println!("{}|\n|---|---|", header);
    for row in &table.bindings {
        let mut line = String::new();
        for v in &table.variables {
            line.push_str(&format!("|{:?}", row.get(&v).unwrap()));
        }
        println!("{}|", line);
    }
}

#[test]
fn table_keeps_the_order_of_the_variables() {
    let vars = vec!["z".to_string(), "a".to_string(), "m".to_string()];
    let table: KeyEntryTable<u8> = KeyEntryTable::from(vars, Vec::<Binding<u8>>::new(), |v: &u8| *v);
    let names: Vec<&str> = table.variables.iter().map(|v| v.name()).collect();
    assert_eq!(names, vec!["z", "a", "m"]);
    assert!(table.bindings.is_empty());
}

#[test]
fn table_holds_the_values_by_variable() {
    let vars = vec!["a".to_string(), "b".to_string()];
    let bindings = vec![
        Binding::from_entries(vec![("a".to_string(), "c"), ("b".to_string(), "d")]),
        Binding::from_entries(vec![("b".to_string(), "f"), ("a".to_string(), "e")]),
    ];
    let table = KeyEntryTable::from(vars, bindings, |value: &&str| *value);
    assert_eq!(table.bindings.len(), 2);
    assert_eq!(table.bindings[0].get(&Variable::from("a")), Some(&"c"));
    assert_eq!(table.bindings[0].get(&Variable::from("b")), Some(&"d"));
    assert_eq!(table.bindings[1].get(&Variable::from("a")), Some(&"e"));
    assert_eq!(table.bindings[1].get(&Variable::from("b")), Some(&"f"));
}

#[test]
fn table_applies_the_transform_to_every_bound_value() {
    let vars = vec!["n".to_string(), "m".to_string()];
    let bindings = vec![
        Binding::from_entries(vec![("n".to_string(), 1u32), ("m".to_string(), 2u32)]),
        Binding::from_entries(vec![("m".to_string(), 20u32)]),
    ];
    let table = KeyEntryTable::from(vars, bindings, |value: &u32| format!("<{}>", value + 1));
    assert_eq!(table.bindings[0].get(&Variable::from("n")), Some(&"<2>".to_string()));
    assert_eq!(table.bindings[0].get(&Variable::from("m")), Some(&"<3>".to_string()));
    assert_eq!(table.bindings[1].get(&Variable::from("m")), Some(&"<21>".to_string()));
}

#[test]
fn partial_row_reads_its_other_columns() {
    let vars = vec!["resource".to_string(), "label".to_string()];
    let bindings = vec![
        Binding::from_entries(vec![("resource".to_string(), "r1")]),
        Binding::from_entries(vec![("label".to_string(), "l2"), ("resource".to_string(), "r2")]),
    ];
    let table = KeyEntryTable::from(vars, bindings, |value: &&str| *value);
    let partial = &table.bindings[0];
    assert_eq!(partial.get(&Variable::from("resource")), Some(&"r1"));
    assert_eq!(partial.get(&Variable::from("label")), None);
    assert!(partial.contains_key(&Variable::from("resource")));
    assert!(!partial.contains_key(&Variable::from("label")));
    let full = &table.bindings[1];
    assert_eq!(full.get(&Variable::from("resource")), Some(&"r2"));
    assert_eq!(full.get(&Variable::from("label")), Some(&"l2"));
}

#[test]
fn table_leaves_out_what_no_variable_declares() {
    let vars = vec!["a".to_string()];
    let bindings = vec![Binding::from_entries(vec![
        ("a".to_string(), "kept"),
        ("stray".to_string(), "dropped"),
    ])];
    let table = KeyEntryTable::from(vars, bindings, |value: &&str| *value);
    assert_eq!(table.bindings[0].get(&Variable::from("a")), Some(&"kept"));
    assert_eq!(table.bindings[0].get(&Variable::from("stray")), None);
}

#[test]
fn table_with_a_variable_declared_twice() {
    let vars = vec!["a".to_string(), "a".to_string()];
    let bindings = vec![Binding::from_entries(vec![("a".to_string(), 7u8)])];
    let table = KeyEntryTable::from(vars, bindings, |value: &u8| *value);
    assert_eq!(table.variables.len(), 2);
    assert_eq!(table.bindings[0].get(&Variable::from("a")), Some(&7u8));
}

#[test]
fn binding_starts_empty() {
    let binding: Binding<u8> = Binding::new();
    assert_eq!(binding.get(&Variable::from("a")), None);
    assert!(!binding.contains_key(&Variable::from("")));
}

#[test]
fn binding_insert_returns_what_was_bound_before() {
    let mut binding = Binding::new();
    assert_eq!(binding.insert(Variable::from("a"), 1), None);
    assert_eq!(binding.insert(Variable::from("b"), 2), None);
    assert_eq!(binding.insert(Variable::from("a"), 3), Some(1));
    assert_eq!(binding.get(&Variable::from("a")), Some(&3));
    assert_eq!(binding.get(&Variable::from("b")), Some(&2));
}

#[test]
fn binding_from_entries_lets_the_later_entry_stand() {
    let binding = Binding::from_entries(vec![
        ("a".to_string(), 1),
        ("b".to_string(), 2),
        ("a".to_string(), 3),
    ]);
    assert_eq!(binding.get(&Variable::from("a")), Some(&3));
    assert_eq!(binding.get(&Variable::from("b")), Some(&2));
}

#[test]
fn variable_names_are_case_sensitive() {
    assert_eq!(Variable::from("label"), Variable::from("label"));
    assert_ne!(Variable::from("label"), Variable::from("Label"));
    assert_eq!(Variable::from("label").name(), "label");
    let binding = Binding::from_entries(vec![("label".to_string(), 1)]);
    assert_eq!(binding.get(&Variable::from("Label")), None);
}
