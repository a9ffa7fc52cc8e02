use filewatch::Loaded;

fn s(text: &str) -> String {
    text.to_string()
}

#[test]
fn new_has_no_dependencies() {
    let loaded = Loaded::new(7u64);
    assert_eq!(loaded.value, 7);
    assert!(loaded.dependencies.is_none());
}

#[test]
fn add_dependency_starts_a_list() {
    let mut loaded = Loaded::new(());
    loaded.add_dependency(s("a.json"));
    assert_eq!(loaded.dependencies, Some(vec![s("a.json")]));
}

#[test]
fn add_dependency_appends() {
    let mut loaded = Loaded::new(());
    loaded.add_dependency(s("a.json"));
    loaded.add_dependency(s("b.json"));
    assert_eq!(loaded.dependencies, Some(vec![s("a.json"), s("b.json")]));
}

#[test]
fn add_dependencies_extends_the_list() {
    let mut loaded = Loaded::new(());
    loaded.add_dependency(s("a.json"));
    loaded.add_dependencies(vec![s("b.json"), s("c.json")]);
    assert_eq!(
        loaded.dependencies,
        Some(vec![s("a.json"), s("b.json"), s("c.json")])
    );
}

#[test]
fn add_dependencies_of_nothing_still_records_a_list() {
    let mut loaded = Loaded::new(());
    loaded.add_dependencies(Vec::new());
    assert_eq!(loaded.dependencies, Some(Vec::new()));
}

#[test]
fn with_dependency_chains() {
    let loaded = Loaded::new(1u8)
        .with_dependency(s("a.json"))
        .with_dependencies(vec![s("b.json")]);
    assert_eq!(loaded.value, 1);
    assert_eq!(loaded.dependencies, Some(vec![s("a.json"), s("b.json")]));
}
