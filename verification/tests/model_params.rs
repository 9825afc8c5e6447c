use spiceai::model_params::{model_source_config, ModelParameterSpecs, ModelParamsError};

#[test]
fn test_openai_parameter_specs() {
    let specs = ModelParameterSpecs::openai();

    // Verify required parameters
    let api_key = specs.iter().find(|s| s.name == "openai_api_key").unwrap();
    assert!(api_key.required);
    assert!(api_key.secret);

    // Verify optional parameters
    let temperature = specs
        .iter()
        .find(|s| s.name == "openai_temperature")
        .unwrap();
    assert!(!temperature.required);

    // Verify default values
    let endpoint = specs.iter().find(|s| s.name == "endpoint").unwrap();
    assert_eq!(endpoint.default.unwrap(), "https://api.openai.com/v1");
}

#[test]
fn test_azure_openai_parameter_specs() {
    let specs = ModelParameterSpecs::azure_openai();

    // Verify required parameters
    for param in [
        "azure_api_key",
        "endpoint",
        "azure_deployment_name",
        "azure_entra_token",
        "azure_api_version",
    ] {
        let spec = specs.iter().find(|s| s.name == param).unwrap();
        assert!(spec.required, "Parameter {} should be required", param);
    }

    // Verify secret parameters
    for param in ["azure_api_key", "azure_entra_token"] {
        let spec = specs.iter().find(|s| s.name == param).unwrap();
        assert!(spec.secret, "Parameter {} should be secret", param);
    }
}

#[test]
fn test_anthropic_parameter_specs() {
    let specs = ModelParameterSpecs::anthropic();

    // Verify API key
    let api_key = specs
        .iter()
        .find(|s| s.name == "anthropic_api_key")
        .unwrap();
    assert!(api_key.required);
    assert!(api_key.secret);

    // Verify endpoint default
    let endpoint = specs.iter().find(|s| s.name == "endpoint").unwrap();
    assert_eq!(endpoint.default.unwrap(), "https://api.anthropic.com/v1");
}

#[test]
fn test_huggingface_parameter_specs() {
    let specs = ModelParameterSpecs::huggingface();

    // Verify required parameters
    let token = specs.iter().find(|s| s.name == "hf_token").unwrap();
    assert!(token.required);
    assert!(token.secret);

    // Verify default values
    let tools = specs.iter().find(|s| s.name == "tools").unwrap();
    assert_eq!(tools.default.unwrap(), "auto");
}

#[test]
fn test_local_parameter_specs() {
    let specs = ModelParameterSpecs::local();

    // Verify required parameters
    let model_type = specs.iter().find(|s| s.name == "model_type").unwrap();
    assert!(model_type.required);

    // Verify optional parameters
    let tools = specs.iter().find(|s| s.name == "tools").unwrap();
    assert_eq!(tools.default.unwrap(), "auto");
}

#[test]
fn test_xai_parameter_specs() {
    let specs = ModelParameterSpecs::xai();

    // Verify API key
    let api_key = specs.iter().find(|s| s.name == "xai_api_key").unwrap();
    assert!(api_key.required);
    assert!(api_key.secret);
}

#[test]
fn model_sources_select_prefix_and_specs() {
    let (prefix, specs) = model_source_config("azure_openai").unwrap();
    assert_eq!(prefix, "azure");
    assert_eq!(specs, ModelParameterSpecs::azure_openai());
    let (prefix, specs) = model_source_config("local").unwrap();
    assert_eq!(prefix, "file");
    assert_eq!(specs.len(), 4);
    assert_eq!(model_source_config("perplexity").unwrap().1[0].name, "perplexity_auth_token");
    assert_eq!(
        model_source_config("invalid-source"),
        Err(ModelParamsError::UnsupportedModelSource { model_type: "invalid-source".to_string() })
    );
}
