use kokoro_openai_server::config::{Config, ExecutionProvider, TargetOs};

#[test]
fn test_execution_provider_parsing() {
    assert_eq!(
        ExecutionProvider::from_str("auto").unwrap(),
        ExecutionProvider::Auto
    );
    assert_eq!(
        ExecutionProvider::from_str("cpu").unwrap(),
        ExecutionProvider::Cpu
    );
    assert_eq!(
        ExecutionProvider::from_str("coreml").unwrap(),
        ExecutionProvider::CoreML
    );
    assert_eq!(
        ExecutionProvider::from_str("CORE_ML").unwrap(),
        ExecutionProvider::CoreML
    );
    assert!(ExecutionProvider::from_str("invalid").is_err());
}

#[test]
fn execution_provider_names() {
    assert_eq!(ExecutionProvider::from_str("Direct_ML").unwrap(), ExecutionProvider::DirectML);
    assert_eq!(ExecutionProvider::from_str("CUDA").unwrap().as_str(), "cuda");
    assert_eq!(
        ExecutionProvider::from_str("tpu").unwrap_err(),
        "Unknown execution provider: tpu"
    );
    let parsed: ExecutionProvider = "CoreML".parse().unwrap();
    assert_eq!(parsed, ExecutionProvider::CoreML);
}

fn valid() -> Config {
    Config {
        host: "0.0.0.0".to_string(),
        port: 8000,
        api_key: None,
        model_path: None,
        execution_provider: ExecutionProvider::Cpu,
        workers: 2,
        max_input_chars: 4096,
    }
}

#[test]
fn test_config_validation() {
    let valid_config = Config {
        host: "0.0.0.0".to_string(),
        port: 8000,
        api_key: None,
        model_path: None,
        execution_provider: ExecutionProvider::Cpu,
        workers: 2,
        max_input_chars: 4096,
    };
    assert!(valid_config.validate().is_ok());

    let invalid_workers = Config {
        workers: 0,
        ..valid_config.clone()
    };
    assert!(invalid_workers.validate().is_err());

    let invalid_workers_high = Config {
        workers: 9,
        ..valid_config.clone()
    };
    assert!(invalid_workers_high.validate().is_err());
}

#[test]
fn config_error_messages() {
    let c = Config { workers: 9, ..valid() };
    assert_eq!(c.validate().unwrap_err(), "Workers must be between 1 and 8, got 9");
    let c = Config { port: 0, ..valid() };
    assert_eq!(c.validate().unwrap_err(), "Port cannot be 0");
    let c = Config { max_input_chars: 0, ..valid() };
    assert_eq!(c.validate().unwrap_err(), "Max input chars cannot be 0");
    assert!(Config { workers: 8, ..valid() }.validate().is_ok());
}

#[test]
fn providers_are_checked_against_the_target() {
    let coreml = Config { execution_provider: ExecutionProvider::CoreML, ..valid() };
    assert!(coreml.validate_target(TargetOs::MacOs).is_ok());
    assert_eq!(
        coreml.validate_target(TargetOs::Other).unwrap_err(),
        "CoreML is only available on macOS"
    );
    let directml = Config { execution_provider: ExecutionProvider::DirectML, ..valid() };
    assert!(directml.validate_target(TargetOs::Windows).is_ok());
    assert!(directml.validate_target(TargetOs::MacOs).is_err());
    assert!(valid().validate_target(TargetOs::Other).is_ok());
}

#[test]
fn from_env_and_args_reports_the_first_problem() {
    let ok = Config::from_env_and_args(valid(), TargetOs::Other).unwrap();
    assert_eq!(ok.port, 8000);
    let both = Config { workers: 0, execution_provider: ExecutionProvider::CoreML, ..valid() };
    assert_eq!(
        Config::from_env_and_args(both, TargetOs::Other).unwrap_err(),
        "Workers must be between 1 and 8, got 0"
    );
}

#[test]
fn test_accepted_model_ids() {
    let ids = Config::accepted_model_ids();
    assert!(ids.contains(&"tts-1"));
    assert!(ids.contains(&"kokoro"));
}

#[test]
fn lower_case_provider_names() {
    assert_eq!(ExecutionProvider::from_lower_name("core_ml"), Some(ExecutionProvider::CoreML));
    assert_eq!(ExecutionProvider::from_lower_name("directml"), Some(ExecutionProvider::DirectML));
    assert_eq!(ExecutionProvider::from_lower_name("CUDA"), None);
    assert_eq!(ExecutionProvider::from_lower_name("tpu"), None);
}
