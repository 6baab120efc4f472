//! The settings read from `config.yaml`.
use vstd::prelude::*;
use crate::text::owned;

verus! {

/// All settings.
#[derive(Debug, Clone)]
pub struct Config {
    pub opensearch: OpenSearchConfig,
    pub llm: LlmConfig,
    pub ui: UiConfig,
}

/// Where the alert index lives and how to log in.
#[derive(Debug, Clone)]
pub struct OpenSearchConfig {
    pub url: String,
    pub username: String,
    pub password: String,
    pub verify_ssl: bool,
}

/// The language models on offer and the one used first.
#[derive(Debug, Clone)]
pub struct LlmConfig {
    /// `"openrouter"` or `"ollama"`; later the selected tag, such as `"openrouter:sonnet4.6"`.
    pub provider: String,
    pub openrouter: OpenRouterConfig,
    pub ollama: OllamaConfig,
}

/// A local model: its id (e.g. `"qwen3.5:0.8b"`) and the short tag shown (e.g. `"qwen3.5"`).
#[derive(Debug, Clone)]
pub struct OllamaModel {
    pub id: String,
    pub tag: String,
}

/// The local model server.
#[derive(Debug, Clone)]
pub struct OllamaConfig {
    pub url: String,
    pub models: Vec<OllamaModel>,
}

/// A hosted model: its id (e.g. `"openai/gpt-4.1"`) and the short tag shown.
#[derive(Debug, Clone)]
pub struct OpenRouterModel {
    pub id: String,
    pub tag: String,
}

/// The hosted model service.
#[derive(Debug, Clone)]
pub struct OpenRouterConfig {
    pub api_key: String,
    pub url: String,
    pub models: Vec<OpenRouterModel>,
}

/// Display settings.
#[derive(Debug, Clone)]
pub struct UiConfig {
    /// Entries per page.
    pub page_size: usize,
    /// Directory for exports and reports.
    pub output_dir: String,
}

/// The local model server's address when the settings give none.
pub fn default_ollama_url() -> (s: String)
    ensures
        s@ == "http://localhost:11434"@,
{
    owned("http://localhost:11434")
}

/// The hosted model service's address when the settings give none.
pub fn default_openrouter_url() -> (s: String)
    ensures
        s@ == "https://openrouter.ai/api/v1"@,
{
    owned("https://openrouter.ai/api/v1")
}

/// Entries per page when the settings give none.
pub fn default_page_size() -> (n: usize)
    ensures
        n == 50,
{
    50
}

/// The output directory when the settings give none: the working directory.
pub fn default_output_dir() -> (s: String)
    ensures
        s@ == "."@,
{
    owned(".")
}

impl Default for UiConfig {
    fn default() -> (c: Self)
        ensures
            c.page_size == 50,
            c.output_dir@ == "."@,
    {
        UiConfig { page_size: default_page_size(), output_dir: default_output_dir() }
    }
}

} // verus!
