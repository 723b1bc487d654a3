use token_analyzer::pricing::{ModelCatalog, ModelIds};

fn entry(id: &str, aliases: &[&str]) -> ModelIds {
    ModelIds {
        id: id.to_string(),
        aliases: aliases.iter().map(|a| a.to_string()).collect(),
    }
}

fn catalog() -> ModelCatalog {
    ModelCatalog {
        models: vec![
            entry("opus-4-6", &["opus-4-6-20250610"]),
            entry("sonnet-4", &["sonnet-4-20250514", "sonnet-latest"]),
            entry("haiku-4-5", &[]),
            // A later entry answering to an earlier id never wins.
            entry("sonnet-4-legacy", &["sonnet-4"]),
        ],
    }
}

#[test]
fn lookup_finds_ids_and_aliases() {
    let c = catalog();
    assert_eq!(c.lookup("opus-4-6"), Some(0));
    assert_eq!(c.lookup("opus-4-6-20250610"), Some(0));
    assert_eq!(c.lookup("sonnet-latest"), Some(1));
    assert_eq!(c.lookup("haiku-4-5"), Some(2));
    assert_eq!(c.lookup("sonnet-4"), Some(1));
    assert_eq!(c.lookup("sonnet-4-legacy"), Some(3));
}

#[test]
fn unknown_models_fall_back_to_the_defaults() {
    let c = catalog();
    assert_eq!(c.lookup("unknown-99"), None);
    assert_eq!(c.lookup(""), None);
    assert_eq!(c.resolved_id("unknown-99"), "default");
    assert_eq!(ModelCatalog { models: vec![] }.lookup("opus-4-6"), None);
}

#[test]
fn aliases_resolve_to_the_canonical_id() {
    let c = catalog();
    assert_eq!(c.resolved_id("opus-4-6-20250610"), "opus-4-6");
    assert_eq!(c.resolved_id("sonnet-4-20250514"), "sonnet-4");
    assert_eq!(c.resolved_id("haiku-4-5"), "haiku-4-5");
}
