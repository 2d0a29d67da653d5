use tanxium::{
    build_process_global, runtime_init, ExtensionOutcome, Phase, RuntimeError, ScriptExtension,
    Tanxium,
};

#[test]
fn extension_loading_stops_at_the_first_failure() {
    let mut t = Tanxium::new().unwrap();
    let exts = vec![
        ScriptExtension { path: String::from("first.js"), transpile: false },
        ScriptExtension { path: String::from("second.ts"), transpile: true },
        ScriptExtension { path: String::from("third.js"), transpile: false },
    ];
    let mut loader = t.load_extensions(exts);
    assert_eq!(t.phase, Phase::ExtensionsLoading);

    // The first extension reads, transpiles and evaluates fine.
    assert_eq!(loader.pending(), Some(0));
    loader.record_outcome(ExtensionOutcome::Evaluated);

    // The second one cannot be read.
    assert_eq!(loader.pending(), Some(1));
    loader.record_outcome(ExtensionOutcome::ReadFailed(String::from("second.ts: not found")));

    // The third extension is never handed out: its side effects cannot
    // happen, and the call reports the second extension's error.
    assert_eq!(loader.pending(), None);
    let res = t.extensions_finished(loader);
    match res {
        Err(RuntimeError::IoError(msg)) => assert_eq!(msg, "second.ts: not found"),
        other => panic!("expected the read failure, got {other:?}"),
    }
    assert_eq!(t.phase, Phase::Ready);
}

#[test]
fn a_transpile_failure_aborts_with_its_own_error_kind() {
    let mut t = Tanxium::new().unwrap();
    let exts = vec![ScriptExtension { path: String::from("broken.ts"), transpile: true }];
    let mut loader = t.load_extensions(exts);
    assert_eq!(loader.pending(), Some(0));
    loader.record_outcome(ExtensionOutcome::TranspileFailed(String::from("unexpected token")));
    assert_eq!(loader.pending(), None);
    let res = t.extensions_finished(loader);
    assert!(matches!(res, Err(RuntimeError::TranspileError(_))));
}

#[test]
fn all_extensions_evaluating_is_a_success() {
    let mut t = Tanxium::new().unwrap();
    let exts = vec![
        ScriptExtension { path: String::from("a.js"), transpile: false },
        ScriptExtension { path: String::from("b.js"), transpile: false },
    ];
    let mut loader = t.load_extensions(exts);
    while let Some(_idx) = loader.pending() {
        loader.record_outcome(ExtensionOutcome::Evaluated);
    }
    assert!(t.extensions_finished(loader).is_ok());
    assert_eq!(t.phase, Phase::Ready);
}

#[test]
fn eval_passes_values_through_and_maps_engine_errors() {
    let mut t = Tanxium::new().unwrap();
    let loader = t.load_extensions(Vec::new());
    assert!(t.extensions_finished(loader).is_ok());

    let value = boa_engine::JsValue::undefined();
    assert!(t.eval(Ok(value)).is_ok());
    assert_eq!(t.phase, Phase::Idle);

    let failed = t.eval(Err(String::from("SyntaxError: unexpected end of input")));
    match failed {
        Err(RuntimeError::EvaluationError(msg)) => {
            assert_eq!(msg, "SyntaxError: unexpected end of input")
        },
        _ => panic!("an engine error must surface as EvaluationError"),
    }
}

#[test]
fn transpile_maps_diagnostics_to_transpile_errors() {
    let mut t = Tanxium::new().unwrap();
    let ok = t.transpile(Ok(String::from("const x = 1;")));
    assert_eq!(ok.unwrap(), "const x = 1;");
    let err = t.transpile(Err(String::from("type annotation not allowed here")));
    match err {
        Err(RuntimeError::TranspileError(msg)) => {
            assert_eq!(msg, "type annotation not allowed here")
        },
        _ => panic!("a transpiler diagnostic must surface as TranspileError"),
    }
}

#[test]
fn process_global_renders_the_version_string() {
    let p = build_process_global(1, 2, 3, true, false);
    assert_eq!(p.version, b"1.2.3".to_vec());
    assert_eq!(p.engine_version, b"1.2.3".to_vec());
    assert!(p.features.typescript);
    assert!(!p.features.test);
}

#[test]
fn version_string_edges() {
    let zero = build_process_global(0, 0, 0, false, true);
    assert_eq!(zero.version, b"0.0.0".to_vec());
    assert!(zero.features.test);
    let large = build_process_global(4_294_967_295, 0, 10, false, false);
    assert_eq!(large.version, b"4294967295.0.10".to_vec());
}

#[test]
fn runtime_init_installs_the_process_global() {
    let mut t = Tanxium::new().unwrap();
    assert!(t.process.is_none());
    runtime_init(&mut t, 2, 0, 1, true, true);
    let p = t.process.as_ref().unwrap();
    assert_eq!(p.version, b"2.0.1".to_vec());
    assert!(p.features.typescript);
    assert!(p.features.test);
    assert_eq!(t.phase, Phase::Created);
}

#[test]
fn terminate_is_terminal() {
    let mut t = Tanxium::new().unwrap();
    t.terminate();
    assert_eq!(t.phase, Phase::Terminated);
}
