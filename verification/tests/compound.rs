use vector::compound::{CompoundConfig, CompoundStep};
use vector::topology::DataType;

fn step(input: DataType, output: DataType) -> CompoundStep {
    CompoundStep { input_type: input, output_type: output }
}

#[test]
fn compound_generate_config() {
    let config = CompoundConfig::generate_config();
    assert!(config.steps.is_empty());
    assert!(config.consistent_types());
    // An empty compound transform is consistent, but cannot be built.
    assert!(config.validate_for_build().is_err());
}

#[test]
fn consistent_types_accepts_matching_steps() {
    let config = CompoundConfig {
        steps: vec![
            step(DataType::Any, DataType::Log),
            step(DataType::Log, DataType::Log),
            step(DataType::Any, DataType::Any),
        ],
    };
    assert!(config.consistent_types());
    assert!(config.validate_for_build().is_ok());
}

#[test]
fn consistent_types_rejects_log_into_metric() {
    let config = CompoundConfig {
        steps: vec![step(DataType::Any, DataType::Log), step(DataType::Metric, DataType::Metric)],
    };
    assert!(!config.consistent_types());
    assert!(config.validate_for_build().is_err());
}

#[test]
fn consistent_types_rejects_metric_into_log() {
    let config = CompoundConfig {
        steps: vec![step(DataType::Any, DataType::Metric), step(DataType::Log, DataType::Log)],
    };
    assert!(!config.consistent_types());
}

#[test]
fn single_step_is_always_consistent() {
    let config = CompoundConfig { steps: vec![step(DataType::Log, DataType::Metric)] };
    assert!(config.consistent_types());
    assert!(config.validate_for_build().is_ok());
}
