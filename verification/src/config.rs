//! Persistent settings: the Ollama host, the selected model, the prompt history.
use vstd::prelude::*;

verus! {

/// The host used when `OLLAMA_HOST` is not set.
pub const DEFAULT_OLLAMA_HOST: &'static str = "http://127.0.0.1:11434";

/// Settings kept between runs.
#[derive(Debug, Clone)]
pub struct Config {
    pub ollama_host: String,
    pub selected_model: Option<String>,
    pub prompt_history: Vec<String>,
}

impl Config {
    /// The settings of a first run: the host from `OLLAMA_HOST` when it is
    /// set (`env_host`), else the local default; no model, no history.
    pub fn initial(env_host: Option<String>) -> (r: Config)
        ensures
            r.ollama_host@ == (match env_host {
                Some(h) => h@,
                None => DEFAULT_OLLAMA_HOST@,
            }),
            r.selected_model is None,
            r.prompt_history@.len() == 0,
    {
        let ollama_host = match env_host {
            Some(h) => h,
            None => DEFAULT_OLLAMA_HOST.to_string(),
        };
        Config { ollama_host, selected_model: None, prompt_history: Vec::new() }
    }

    /// Settings read from disk, with the host replaced by `OLLAMA_HOST`
    /// when it is set (`env_host`).
    pub fn with_host_override(self, env_host: Option<String>) -> (r: Config)
        ensures
            r.ollama_host@ == (match env_host {
                Some(h) => h@,
                None => self.ollama_host@,
            }),
            r.selected_model == self.selected_model,
            r.prompt_history == self.prompt_history,
    {
        let mut config = self;
        if let Some(host) = env_host {
            config.ollama_host = host;
        }
        config
    }
}

} // verus!
