use trigger_pipeline::environment::Environment;

#[test]
fn new_environment_is_empty() {
    let env = Environment::new();
    assert_eq!(env.len(), 0);
    assert!(!env.contains_key("A"));
    assert_eq!(env.get("A"), None);
    assert!(env.entries().is_empty());
}

#[test]
fn insert_then_get() {
    let mut env = Environment::new();
    env.insert("A".to_string(), "x".to_string());
    env.insert("B".to_string(), "y".to_string());
    assert_eq!(env.len(), 2);
    assert!(env.contains_key("A"));
    assert_eq!(env.get("A").map(|s| s.as_str()), Some("x"));
    assert_eq!(env.get("B").map(|s| s.as_str()), Some("y"));
    assert_eq!(env.get("C"), None);
    assert_eq!(env.get("a"), None);
}

#[test]
fn insert_overwrites_in_place() {
    let mut env = Environment::new();
    env.insert("A".to_string(), "x".to_string());
    env.insert("B".to_string(), "y".to_string());
    env.insert("A".to_string(), "z".to_string());
    assert_eq!(env.len(), 2);
    assert_eq!(env.get("A").map(|s| s.as_str()), Some("z"));
    assert_eq!(
        env.entries(),
        vec![("A".to_string(), "z".to_string()), ("B".to_string(), "y".to_string())]
    );
}

#[test]
fn keys_may_be_any_text() {
    let mut env = Environment::new();
    env.insert("".to_string(), "empty".to_string());
    env.insert("clé".to_string(), "valeur".to_string());
    assert_eq!(env.get("").map(|s| s.as_str()), Some("empty"));
    assert_eq!(env.get("clé").map(|s| s.as_str()), Some("valeur"));
    assert_eq!(env.get("cle"), None);
}

#[test]
fn clone_is_independent() {
    let mut env = Environment::new();
    env.insert("A".to_string(), "x".to_string());
    let copy = env.clone();
    env.insert("A".to_string(), "changed".to_string());
    assert_eq!(copy.get("A").map(|s| s.as_str()), Some("x"));
    assert_eq!(env.get("A").map(|s| s.as_str()), Some("changed"));
}
