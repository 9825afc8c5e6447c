//! Parameter specifications of model providers.

use vstd::prelude::*;
use vstd::string::StringExecFns;
use crate::text::str_eq;

verus! {

broadcast use vstd::string::group_string_axioms;

/// A parameter that a component accepts.
#[derive(Debug, Clone, Copy, PartialEq, Eq)]
pub struct ParameterSpec {
    pub name: &'static str,
    pub description: &'static str,
    pub required: bool,
    pub secret: bool,
    pub default: Option<&'static str>,
}

/// The abstract content of a parameter specification: name, description,
/// required, secret, default.
pub type SpecModel = (Seq<char>, Seq<char>, bool, bool, Option<Seq<char>>);

/// The abstract content of a parameter specification.
pub open spec fn spec_view(p: ParameterSpec) -> SpecModel {
    (p.name@, p.description@, p.required, p.secret, match p.default {
        Some(d) => Some(d@),
        None => None,
    })
}

/// The abstract content of a list of parameter specifications.
pub open spec fn specs_view(v: Seq<ParameterSpec>) -> Seq<SpecModel> {
    v.map_values(|p: ParameterSpec| spec_view(p))
}

impl ParameterSpec {
    /// An optional, non-secret connector parameter without description or default.
    pub fn connector(name: &'static str) -> (res: Self)
        ensures
            spec_view(res) == (name@, ""@, false, false, None::<Seq<char>>),
    {
        ParameterSpec { name, description: "", required: false, secret: false, default: None }
    }

    pub fn description(self, description: &'static str) -> (res: Self)
        ensures
            res == (ParameterSpec { description, ..self }),
    {
        ParameterSpec { description, ..self }
    }

    pub fn required(self) -> (res: Self)
        ensures
            res == (ParameterSpec { required: true, ..self }),
    {
        ParameterSpec { required: true, ..self }
    }

    pub fn secret(self) -> (res: Self)
        ensures
            res == (ParameterSpec { secret: true, ..self }),
    {
        ParameterSpec { secret: true, ..self }
    }

    pub fn default(self, default: &'static str) -> (res: Self)
        ensures
            res == (ParameterSpec { default: Some(default), ..self }),
    {
        ParameterSpec { default: Some(default), ..self }
    }
}

/// The parameters of `openai` models.
pub open spec fn openai_specs() -> Seq<SpecModel> {
    seq![
        ("endpoint"@, "The OpenAI API base endpoint"@, false, false, Some("https://api.openai.com/v1"@)),
        ("openai_api_key"@, "OpenAI API key"@, true, true, None),
        ("openai_org_id"@, "The OpenAI organization ID"@, true, true, None),
        ("openai_project_id"@, "The OpenAI project ID"@, true, true, None),
        ("model"@, "The OpenAI model to use"@, false, false, None),
        ("openai_temperature"@, "Sampling temperature (0.0-2.0)"@, false, false, None),
        ("max_tokens"@, "Maximum tokens in response"@, false, false, None),
        ("response_format"@, "Response format specification"@, false, false, None),
    ]
}

/// The parameters of `azure_openai` models.
pub open spec fn azure_openai_specs() -> Seq<SpecModel> {
    seq![
        ("azure_api_key"@, "Azure OpenAI API key"@, true, true, None),
        ("endpoint"@, "Azure OpenAI endpoint"@, true, true, None),
        ("azure_deployment_name"@, "Azure OpenAI deployment name"@, true, true, None),
        ("azure_entra_token"@, "Azure Entra token"@, true, true, None),
        ("azure_api_version"@, "API version"@, true, true, None),
        ("azure_project_id"@, "Project ID"@, false, false, None),
    ]
}

/// The parameters of `anthropic` models.
pub open spec fn anthropic_specs() -> Seq<SpecModel> {
    seq![
        ("anthropic_api_key"@, "The Anthropic API key."@, true, true, None),
        ("endpoint"@, "The Anthropic API base endpoint."@, true, false, Some("https://api.anthropic.com/v1"@)),
        ("anthropic_auth_token"@, "The Anthropic API base endpoint."@, true, true, None),
    ]
}

/// The parameters of `huggingface` models.
pub open spec fn huggingface_specs() -> Seq<SpecModel> {
    seq![
        ("hf_token"@, "The Huggingface access token."@, true, true, None),
        ("model_type"@, "The architecture to load the model."@, true, true, None),
        ("tools"@, "Which [tools] should be made available to the model. Set to auto to use all available tools."@, false, false, Some("auto"@)),
        ("system_prompt"@, "An additional system prompt used for all chat completions to this model."@, false, false, None),
    ]
}

/// The parameters of `perplexity` models.
pub open spec fn perplexity_specs() -> Seq<SpecModel> {
    seq![
        ("perplexity_auth_token"@, "The Perplexity API authentication token."@, true, true, None),
    ]
}

/// The parameters of `local` models.
pub open spec fn local_specs() -> Seq<SpecModel> {
    seq![
        ("model_type"@, "The architecture to load the model"@, true, false, None),
        ("tools"@, "Which tools should be made available to the model. Set to auto to use all available tools."@, false, false, Some("auto"@)),
        ("system_prompt"@, "An additional system prompt used for all chat completions to this model."@, false, false, None),
        ("chat_template"@, "Customizes the transformation of OpenAI chat messages into a character stream for the model"@, false, false, None),
    ]
}

/// The parameters of `xai` models.
pub open spec fn xai_specs() -> Seq<SpecModel> {
    seq![
        ("xai_api_key"@, "The xAI API key."@, true, true, None),
    ]
}

/// The parameter specifications of each model provider.
pub struct ModelParameterSpecs;

impl ModelParameterSpecs {
    pub fn openai() -> (res: Vec<ParameterSpec>)
        ensures
            specs_view(res@) == openai_specs(),
    {
        let v = vec![
            ParameterSpec::connector("endpoint").description("The OpenAI API base endpoint").default("https://api.openai.com/v1"),
            ParameterSpec::connector("openai_api_key").description("OpenAI API key").required().secret(),
            ParameterSpec::connector("openai_org_id").description("The OpenAI organization ID").required().secret(),
            ParameterSpec::connector("openai_project_id").description("The OpenAI project ID").required().secret(),
            ParameterSpec::connector("model").description("The OpenAI model to use"),
            ParameterSpec::connector("openai_temperature").description("Sampling temperature (0.0-2.0)"),
            ParameterSpec::connector("max_tokens").description("Maximum tokens in response"),
            ParameterSpec::connector("response_format").description("Response format specification"),
        ];
        assert(specs_view(v@) =~= openai_specs());
        v
    }

    pub fn azure_openai() -> (res: Vec<ParameterSpec>)
        ensures
            specs_view(res@) == azure_openai_specs(),
    {
        let v = vec![
            ParameterSpec::connector("azure_api_key").description("Azure OpenAI API key").required().secret(),
            ParameterSpec::connector("endpoint").description("Azure OpenAI endpoint").required().secret(),
            ParameterSpec::connector("azure_deployment_name").description("Azure OpenAI deployment name").required().secret(),
            ParameterSpec::connector("azure_entra_token").description("Azure Entra token").required().secret(),
            ParameterSpec::connector("azure_api_version").description("API version").required().secret(),
            ParameterSpec::connector("azure_project_id").description("Project ID"),
        ];
        assert(specs_view(v@) =~= azure_openai_specs());
        v
    }

    pub fn anthropic() -> (res: Vec<ParameterSpec>)
        ensures
            specs_view(res@) == anthropic_specs(),
    {
        let v = vec![
            ParameterSpec::connector("anthropic_api_key").description("The Anthropic API key.").required().secret(),
            ParameterSpec::connector("endpoint").description("The Anthropic API base endpoint.").required().default("https://api.anthropic.com/v1"),
            ParameterSpec::connector("anthropic_auth_token").description("The Anthropic API base endpoint.").required().secret(),
        ];
        assert(specs_view(v@) =~= anthropic_specs());
        v
    }

    pub fn huggingface() -> (res: Vec<ParameterSpec>)
        ensures
            specs_view(res@) == huggingface_specs(),
    {
        let v = vec![
            ParameterSpec::connector("hf_token").description("The Huggingface access token.").required().secret(),
            ParameterSpec::connector("model_type").description("The architecture to load the model.").required().secret(),
            ParameterSpec::connector("tools").description("Which [tools] should be made available to the model. Set to auto to use all available tools.").default("auto"),
            ParameterSpec::connector("system_prompt").description("An additional system prompt used for all chat completions to this model."),
        ];
        assert(specs_view(v@) =~= huggingface_specs());
        v
    }

    pub fn perplexity() -> (res: Vec<ParameterSpec>)
        ensures
            specs_view(res@) == perplexity_specs(),
    {
        let v = vec![
            ParameterSpec::connector("perplexity_auth_token").description("The Perplexity API authentication token.").required().secret(),
        ];
        assert(specs_view(v@) =~= perplexity_specs());
        v
    }

    pub fn local() -> (res: Vec<ParameterSpec>)
        ensures
            specs_view(res@) == local_specs(),
    {
        let v = vec![
            ParameterSpec::connector("model_type").description("The architecture to load the model").required(),
            ParameterSpec::connector("tools").description("Which tools should be made available to the model. Set to auto to use all available tools.").default("auto"),
            ParameterSpec::connector("system_prompt").description("An additional system prompt used for all chat completions to this model."),
            ParameterSpec::connector("chat_template").description("Customizes the transformation of OpenAI chat messages into a character stream for the model"),
        ];
        assert(specs_view(v@) =~= local_specs());
        v
    }

    pub fn xai() -> (res: Vec<ParameterSpec>)
        ensures
            specs_view(res@) == xai_specs(),
    {
        let v = vec![
            ParameterSpec::connector("xai_api_key").description("The xAI API key.").required().secret(),
        ];
        assert(specs_view(v@) =~= xai_specs());
        v
    }
}

/// Why model parameters could not be built.
#[derive(Debug, Clone, PartialEq, Eq)]
pub enum ModelParamsError {
    /// The model names a provider that is not known.
    UnsupportedModelSource { model_type: String },
}

/// The parameter prefix and specifications of a model provider.
pub open spec fn source_config(source: Seq<char>) -> Option<(Seq<char>, Seq<SpecModel>)> {
    if source == "openai"@ {
        Some(("openai"@, openai_specs()))
    } else if source == "azure_openai"@ {
        Some(("azure"@, azure_openai_specs()))
    } else if source == "anthropic"@ {
        Some(("anthropic"@, anthropic_specs()))
    } else if source == "huggingface"@ {
        Some(("huggingface"@, huggingface_specs()))
    } else if source == "perplexity"@ {
        Some(("perplexity"@, perplexity_specs()))
    } else if source == "local"@ {
        Some(("file"@, local_specs()))
    } else if source == "xai"@ {
        Some(("xai"@, xai_specs()))
    } else {
        None
    }
}

/// The parameter prefix and specifications of the provider `source`, or the
/// error that it is not supported.
pub fn model_source_config(source: &str) -> (res: Result<(&'static str, Vec<ParameterSpec>), ModelParamsError>)
    ensures
        match source_config(source@) {
            Some((prefix, specs)) => res matches Ok((p, v)) && p@ == prefix && specs_view(v@) == specs,
            None => res matches Err(ModelParamsError::UnsupportedModelSource { model_type })
                && model_type@ == source@,
        },
{
    if str_eq(source, "openai") {
        Ok(("openai", ModelParameterSpecs::openai()))
    } else if str_eq(source, "azure_openai") {
        Ok(("azure", ModelParameterSpecs::azure_openai()))
    } else if str_eq(source, "anthropic") {
        Ok(("anthropic", ModelParameterSpecs::anthropic()))
    } else if str_eq(source, "huggingface") {
        Ok(("huggingface", ModelParameterSpecs::huggingface()))
    } else if str_eq(source, "perplexity") {
        Ok(("perplexity", ModelParameterSpecs::perplexity()))
    } else if str_eq(source, "local") {
        Ok(("file", ModelParameterSpecs::local()))
    } else if str_eq(source, "xai") {
        Ok(("xai", ModelParameterSpecs::xai()))
    } else {
        Err(ModelParamsError::UnsupportedModelSource { model_type: String::from_str(source) })
    }
}

/// Every provider the runtime supports is resolved, each to its own
/// parameter prefix and the specifications that `ModelParameterSpecs` gives
/// for it: `openai` (prefix `openai`), `azure_openai` (prefix `azure`),
/// `anthropic`, `huggingface`, `perplexity`, `local` (prefix `file`) and
/// `xai`; any other source is unsupported.
pub proof fn lemma_supported_sources(source: Seq<char>)
    ensures
        source_config("openai"@) == Some(("openai"@, openai_specs())),
        source_config("azure_openai"@) == Some(("azure"@, azure_openai_specs())),
        source_config("anthropic"@) == Some(("anthropic"@, anthropic_specs())),
        source_config("huggingface"@) == Some(("huggingface"@, huggingface_specs())),
        source_config("perplexity"@) == Some(("perplexity"@, perplexity_specs())),
        source_config("local"@) == Some(("file"@, local_specs())),
        source_config("xai"@) == Some(("xai"@, xai_specs())),
        source_config(source) is Some <==> (source == "openai"@ || source == "azure_openai"@ || source
            == "anthropic"@ || source == "huggingface"@ || source == "perplexity"@ || source == "local"@
            || source == "xai"@),
{
    reveal_strlit("openai");
    reveal_strlit("azure_openai");
    reveal_strlit("anthropic");
    reveal_strlit("huggingface");
    reveal_strlit("perplexity");
    reveal_strlit("local");
    reveal_strlit("xai");
    assert("openai"@.len() != "azure_openai"@.len());
    assert("azure_openai"@.len() != "openai"@.len());
    assert("anthropic"@.len() != "openai"@.len());
    assert("anthropic"@.len() != "azure_openai"@.len());
    assert("huggingface"@.len() != "openai"@.len());
    assert("huggingface"@.len() != "azure_openai"@.len());
    assert("huggingface"@.len() != "anthropic"@.len());
    assert("perplexity"@.len() != "openai"@.len());
    assert("perplexity"@.len() != "azure_openai"@.len());
    assert("perplexity"@.len() != "anthropic"@.len());
    assert("perplexity"@.len() != "huggingface"@.len());
    assert("local"@.len() != "openai"@.len());
    assert("local"@.len() != "azure_openai"@.len());
    assert("local"@.len() != "anthropic"@.len());
    assert("local"@.len() != "huggingface"@.len());
    assert("local"@.len() != "perplexity"@.len());
    assert("xai"@.len() != "openai"@.len());
    assert("xai"@.len() != "azure_openai"@.len());
    assert("xai"@.len() != "anthropic"@.len());
    assert("xai"@.len() != "huggingface"@.len());
    assert("xai"@.len() != "perplexity"@.len());
    assert("xai"@.len() != "local"@.len());
}

} // verus!
