use tanxium::{ModuleLoader, ModuleState, RuntimeError};

#[test]
fn resolving_twice_returns_the_identical_record() {
    let mut loader = ModuleLoader::new();
    let first = loader.resolve(String::from("file:///a.js"), None);
    let second = loader.resolve(String::from("file:///a.js"), Some(first));
    assert_eq!(first, second);
    assert_eq!(loader.module_count(), 1);
    assert_eq!(loader.state_of(first), ModuleState::Unlinked);
}

#[test]
fn distinct_specifiers_get_distinct_records() {
    let mut loader = ModuleLoader::new();
    let a = loader.resolve(String::from("file:///a.js"), None);
    let b = loader.resolve(String::from("file:///b.js"), None);
    assert_ne!(a, b);
    assert_eq!(loader.module_count(), 2);
}

#[test]
fn cyclic_graph_links_and_evaluates_both_modules() {
    let mut loader = ModuleLoader::new();
    let a = loader.resolve(String::from("file:///a.js"), None);
    let b = loader.resolve(String::from("file:///b.js"), Some(a));
    loader.set_loaded(a, vec![b]);
    loader.set_loaded(b, vec![a]);
    assert!(loader.load_link_evaluate(a).is_ok());
    assert_eq!(loader.state_of(a), ModuleState::Evaluated);
    assert_eq!(loader.state_of(b), ModuleState::Evaluated);
}

#[test]
fn self_import_evaluates() {
    let mut loader = ModuleLoader::new();
    let a = loader.resolve(String::from("file:///self.js"), None);
    loader.set_loaded(a, vec![a]);
    assert!(loader.load_link_evaluate(a).is_ok());
    assert_eq!(loader.state_of(a), ModuleState::Evaluated);
}

#[test]
fn diamond_graph_evaluates_every_module() {
    let mut loader = ModuleLoader::new();
    let root = loader.resolve(String::from("file:///root.js"), None);
    let left = loader.resolve(String::from("file:///left.js"), Some(root));
    let right = loader.resolve(String::from("file:///right.js"), Some(root));
    let shared = loader.resolve(String::from("file:///shared.js"), Some(left));
    loader.set_loaded(root, vec![left, right]);
    loader.set_loaded(left, vec![shared]);
    loader.set_loaded(right, vec![shared]);
    loader.set_loaded(shared, vec![]);
    assert!(loader.load_link_evaluate(root).is_ok());
    for id in [root, left, right, shared] {
        assert_eq!(loader.state_of(id), ModuleState::Evaluated);
    }
}

#[test]
fn linking_an_unloaded_record_is_a_resolution_error() {
    let mut loader = ModuleLoader::new();
    let a = loader.resolve(String::from("file:///missing.js"), None);
    let res = loader.link(a);
    assert!(matches!(res, Err(RuntimeError::ResolutionError(_))));
    assert_eq!(loader.state_of(a), ModuleState::Errored);
}

#[test]
fn an_errored_record_stays_errored_and_is_never_retried() {
    let mut loader = ModuleLoader::new();
    let a = loader.resolve(String::from("file:///bad.js"), None);
    loader.mark_errored(a);
    assert!(matches!(loader.link(a), Err(RuntimeError::ResolutionError(_))));
    assert!(matches!(loader.evaluate(a), Err(RuntimeError::ResolutionError(_))));
    assert_eq!(loader.state_of(a), ModuleState::Errored);
    // The cache still answers with the same terminal record.
    let again = loader.resolve(String::from("file:///bad.js"), None);
    assert_eq!(again, a);
    assert_eq!(loader.module_count(), 1);
}

#[test]
fn a_failed_dependency_fails_the_dependent() {
    let mut loader = ModuleLoader::new();
    let a = loader.resolve(String::from("file:///a.js"), None);
    let b = loader.resolve(String::from("file:///b.js"), Some(a));
    loader.set_loaded(a, vec![b]);
    loader.mark_errored(b);
    assert!(matches!(loader.link(a), Err(RuntimeError::ResolutionError(_))));
    assert_eq!(loader.state_of(a), ModuleState::Errored);
}
