use vector::topology::{
    compile, ChildTransform, ComponentKey, Config, ConfigBuilder, DataType, ExpandType, Expansion,
    OutputId, SinkSpec, SourceSpec, TransformSpec,
};

fn source() -> SourceSpec {
    SourceSpec { output_type: DataType::Any, resources: vec![] }
}

fn transform() -> TransformSpec {
    TransformSpec {
        input_type: DataType::Any,
        output_type: DataType::Any,
        named_outputs: vec![],
        expansion: None,
    }
}

fn sink() -> SinkSpec {
    SinkSpec { input_type: DataType::Any, resources: vec![] }
}

fn strings(v: &[&str]) -> Vec<String> {
    v.iter().map(|s| s.to_string()).collect()
}

fn without_ports(outputs: &[OutputId]) -> Vec<ComponentKey> {
    outputs
        .iter()
        .map(|output| {
            assert!(output.port.is_none());
            output.component.clone()
        })
        .collect()
}

fn key(name: &str) -> ComponentKey {
    ComponentKey::named(name)
}

#[test]
fn glob_expansion() {
    let mut builder = ConfigBuilder::new();
    builder.add_source("foo1", source());
    builder.add_source("foo2", source());
    builder.add_source("bar", source());
    builder.add_transform("foos", strings(&["foo*"]), transform());
    builder.add_sink("baz", strings(&["foos*", "b*"]), sink());
    builder.add_sink("quix", strings(&["*oo*"]), sink());
    builder.add_sink("quux", strings(&["*"]), sink());

    let (config, _warnings) = compile(builder).expect("build should succeed");

    assert_eq!(
        without_ports(&config.get_transform("foos").unwrap().inputs),
        vec![key("foo1"), key("foo2")],
    );
    assert_eq!(
        without_ports(&config.get_sink("baz").unwrap().inputs),
        vec![key("foos"), key("bar")],
    );
    assert_eq!(
        without_ports(&config.get_sink("quux").unwrap().inputs),
        vec![key("foo1"), key("foo2"), key("bar"), key("foos")],
    );
    assert_eq!(
        without_ports(&config.get_sink("quix").unwrap().inputs),
        vec![key("foo1"), key("foo2"), key("foos")],
    );
}

#[test]
fn glob_expansion_example() {
    // Sources foo1, foo2, bar; a sink reading "foo*" resolves to exactly
    // {foo1, foo2}, never bar.
    let mut builder = ConfigBuilder::new();
    builder.add_source("foo1", source());
    builder.add_source("foo2", source());
    builder.add_source("bar", source());
    builder.add_sink("out", strings(&["foo*", "bar"]), sink());

    let (config, _warnings) = compile(builder).expect("build should succeed");
    let mut inputs = without_ports(&config.get_sink("out").unwrap().inputs);
    inputs.sort_by(|a, b| a.id.cmp(&b.id));
    let mut expected = vec![key("foo1"), key("foo2"), key("bar")];
    expected.sort_by(|a, b| a.id.cmp(&b.id));
    assert_eq!(inputs, expected);
    assert!(!without_ports(&config.get_sink("out").unwrap().inputs)
        .iter()
        .take(2)
        .any(|k| k.id == "bar"));
}

#[test]
fn unmatched_glob_fallback() {
    // An input that matches nothing as a glob stays in place verbatim and
    // surfaces as an unknown-input error, not as a silently empty list.
    let mut builder = ConfigBuilder::new();
    builder.add_source("foo", source());
    builder.add_sink("out", strings(&["nonexistent*"]), sink());

    let errors = compile(builder).unwrap_err();
    assert!(errors.iter().any(|e| e.contains("nonexistent*")), "{:?}", errors);
}

#[test]
fn macro_expansion_parallel_and_serial() {
    let mut builder = ConfigBuilder::new();
    builder.add_source("in", source());
    builder.add_transform(
        "par",
        strings(&["in"]),
        TransformSpec {
            input_type: DataType::Any,
            output_type: DataType::Any,
            named_outputs: vec![],
            expansion: Some(Expansion::Expands(
                ExpandType::Parallel,
                vec![
                    ("a".to_string(), child()),
                    ("b".to_string(), child()),
                ],
            )),
        },
    );
    builder.add_transform(
        "ser",
        strings(&["in"]),
        TransformSpec {
            input_type: DataType::Any,
            output_type: DataType::Any,
            named_outputs: vec![],
            expansion: Some(Expansion::Expands(
                ExpandType::Serial,
                vec![
                    ("a".to_string(), child()),
                    ("b".to_string(), child()),
                ],
            )),
        },
    );
    builder.add_sink("out", strings(&["par.a", "par.b", "ser.b"]), sink());

    let (config, _warnings) = compile(builder).expect("build should succeed");

    assert_eq!(
        config.expansions,
        vec![
            (key("par"), vec![key("par.a"), key("par.b")]),
            (key("ser"), vec![key("ser.a"), key("ser.b")]),
        ],
    );
    // Parallel children both read the parent's inputs.
    assert_eq!(without_ports(&config.get_transform("par.a").unwrap().inputs), vec![key("in")]);
    assert_eq!(without_ports(&config.get_transform("par.b").unwrap().inputs), vec![key("in")]);
    // Serial children chain one after the other.
    assert_eq!(without_ports(&config.get_transform("ser.a").unwrap().inputs), vec![key("in")]);
    assert_eq!(
        without_ports(&config.get_transform("ser.b").unwrap().inputs),
        vec![key("ser.a")],
    );
}

fn child() -> ChildTransform {
    ChildTransform { input_type: DataType::Any, output_type: DataType::Any }
}

#[test]
fn failing_expansion_fails_compile() {
    let mut builder = ConfigBuilder::new();
    builder.add_source("in", source());
    builder.add_transform(
        "boom",
        strings(&["in"]),
        TransformSpec {
            input_type: DataType::Any,
            output_type: DataType::Any,
            named_outputs: vec![],
            expansion: Some(Expansion::FailsWith("no can do".to_string())),
        },
    );
    builder.add_sink("out", strings(&["in"]), sink());

    let errors = compile(builder).unwrap_err();
    assert!(errors.iter().any(|e| e.contains("boom") && e.contains("no can do")), "{:?}", errors);
}

fn round_trip_builder() -> ConfigBuilder {
    let mut builder = ConfigBuilder::new();
    builder.add_source("foo1", source());
    builder.add_source("foo2", source());
    builder.add_transform(
        "pipe",
        strings(&["foo*"]),
        TransformSpec {
            input_type: DataType::Any,
            output_type: DataType::Any,
            named_outputs: vec![],
            expansion: Some(Expansion::Expands(
                ExpandType::Serial,
                vec![("x".to_string(), child()), ("y".to_string(), child())],
            )),
        },
    );
    builder.add_sink("out", strings(&["pipe.*"]), sink());
    builder
}

#[test]
fn round_trip_config_determinism() {
    // Compiling the same builder twice yields component-for-component
    // identical resolved input lists and identical expansion maps.
    let (first, _) = compile(round_trip_builder()).expect("build should succeed");
    let (second, _) = compile(round_trip_builder()).expect("build should succeed");

    assert_eq!(first.expansions, second.expansions);
    assert_eq!(resolved_inputs(&first), resolved_inputs(&second));
}

fn resolved_inputs(config: &Config) -> Vec<(ComponentKey, Vec<OutputId>)> {
    let mut out: Vec<(ComponentKey, Vec<OutputId>)> = config
        .transforms
        .iter()
        .map(|(k, t)| (k.clone(), t.inputs.clone()))
        .collect();
    out.extend(config.sinks.iter().map(|(k, s)| (k.clone(), s.inputs.clone())));
    out
}

#[test]
fn name_with_dot_is_rejected_before_expansion() {
    let mut builder = ConfigBuilder::new();
    builder.add_source("bad.name", source());
    builder.add_sink("out", strings(&["bad.name"]), sink());
    let errors = compile(builder).unwrap_err();
    assert!(errors.iter().any(|e| e.contains("bad.name")), "{:?}", errors);
}

#[test]
fn type_mismatch_is_one_error_per_edge() {
    let mut builder = ConfigBuilder::new();
    builder.add_source("logs", SourceSpec { output_type: DataType::Log, resources: vec![] });
    builder.add_sink("m1", strings(&["logs"]), SinkSpec {
        input_type: DataType::Metric,
        resources: vec![],
    });
    builder.add_sink("m2", strings(&["logs"]), SinkSpec {
        input_type: DataType::Metric,
        resources: vec![],
    });
    let errors = compile(builder).unwrap_err();
    let mismatches = errors.iter().filter(|e| e.contains("mismatch")).count();
    assert_eq!(mismatches, 2);
}

#[test]
fn all_phase_errors_are_aggregated() {
    // A bad name and a failing expansion are reported together.
    let mut builder = ConfigBuilder::new();
    builder.add_source("bad.src", source());
    builder.add_transform(
        "boom",
        strings(&["bad.src"]),
        TransformSpec {
            input_type: DataType::Any,
            output_type: DataType::Any,
            named_outputs: vec![],
            expansion: Some(Expansion::FailsWith("nope".to_string())),
        },
    );
    builder.add_sink("out", strings(&["boom"]), sink());
    let errors = compile(builder).unwrap_err();
    assert!(errors.iter().any(|e| e.contains("bad.src") && e.contains("'.'")), "{:?}", errors);
    assert!(errors.iter().any(|e| e.contains("nope")), "{:?}", errors);
}

#[test]
fn cycle_is_detected() {
    let mut builder = ConfigBuilder::new();
    builder.add_source("in", source());
    builder.add_transform("a", strings(&["in", "b"]), transform());
    builder.add_transform("b", strings(&["a"]), transform());
    builder.add_sink("out", strings(&["b"]), sink());
    let errors = compile(builder).unwrap_err();
    assert!(errors.iter().any(|e| e.contains("yclic")), "{:?}", errors);
}

#[test]
fn named_output_ports_resolve() {
    let mut builder = ConfigBuilder::new();
    builder.add_source("in", source());
    builder.add_transform(
        "router",
        strings(&["in"]),
        TransformSpec {
            input_type: DataType::Any,
            output_type: DataType::Any,
            named_outputs: vec!["errors".to_string()],
            expansion: None,
        },
    );
    builder.add_sink("out", strings(&["router.errors"]), sink());
    let (config, _warnings) = compile(builder).expect("build should succeed");
    let inputs = &config.get_sink("out").unwrap().inputs;
    assert_eq!(inputs.len(), 1);
    assert_eq!(inputs[0].component, key("router"));
    assert_eq!(inputs[0].port.as_deref(), Some("errors"));
    assert_eq!(inputs[0].to_text(), "router.errors");
}

#[test]
fn empty_builder_reports_shape_errors() {
    let errors = compile(ConfigBuilder::new()).unwrap_err();
    assert!(errors.iter().any(|e| e.contains("no sources")), "{:?}", errors);
    assert!(errors.iter().any(|e| e.contains("no sinks")), "{:?}", errors);
}

#[test]
fn duplicate_component_keys_are_rejected() {
    let mut builder = ConfigBuilder::new();
    builder.add_source("dup", source());
    builder.add_transform("dup", strings(&["dup"]), transform());
    builder.add_sink("out", strings(&["dup"]), sink());
    let errors = compile(builder).unwrap_err();
    assert!(
        errors.iter().any(|e| e.contains("dup") && e.contains("more than one")),
        "{:?}",
        errors,
    );
}

#[test]
fn duplicate_resources_are_rejected() {
    let mut builder = ConfigBuilder::new();
    builder.add_source(
        "a",
        SourceSpec { output_type: DataType::Any, resources: vec!["0.0.0.0:80".to_string()] },
    );
    builder.add_source(
        "b",
        SourceSpec { output_type: DataType::Any, resources: vec!["0.0.0.0:80".to_string()] },
    );
    builder.add_sink("out", strings(&["a", "b"]), sink());
    let errors = compile(builder).unwrap_err();
    assert!(errors.iter().any(|e| e.contains("0.0.0.0:80")), "{:?}", errors);
}
