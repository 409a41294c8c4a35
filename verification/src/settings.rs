//! Run-time settings: the inference endpoint URL and the model name, each
//! falling back to a built-in default when configuration gives none.

use vstd::prelude::*;

verus! {

/// The built-in endpoint URL, as a sequence of characters.
pub open spec fn default_url_view() -> Seq<char> {
    "http://localhost:11434"@
}

/// The built-in model name, as a sequence of characters.
pub open spec fn default_model_view() -> Seq<char> {
    "codellama"@
}

/// The endpoint URL used when configuration names none.
pub fn default_ollama_url() -> (r: String)
    ensures
        r@ == default_url_view(),
{
    "http://localhost:11434".to_owned()
}

/// The model name used when configuration names none.
pub fn default_model() -> (r: String)
    ensures
        r@ == default_model_view(),
{
    "codellama".to_owned()
}

/// Endpoint URL and model name, loaded once at startup.
pub struct Settings {
    pub ollama_url: String,
    pub model: String,
}

impl Settings {
    /// Both fields hold their built-in defaults.
    pub open spec fn is_built_in_default(&self) -> bool {
        self.ollama_url@ == default_url_view() && self.model@ == default_model_view()
    }

    /// Build settings from optional configured values; an absent value
    /// falls back to its built-in default.
    pub fn from_options(url: Option<String>, model: Option<String>) -> (r: Settings)
        ensures
            r.ollama_url@ == (match url {
                Some(u) => u@,
                None => default_url_view(),
            }),
            r.model@ == (match model {
                Some(m) => m@,
                None => default_model_view(),
            }),
    {
        Settings {
            ollama_url: match url {
                Some(u) => u,
                None => default_ollama_url(),
            },
            model: match model {
                Some(m) => m,
                None => default_model(),
            },
        }
    }
}

impl Default for Settings {
    /// The settings that hold when no configuration file is present.
    fn default() -> (r: Settings)
        ensures
            r.is_built_in_default(),
    {
        Settings { ollama_url: default_ollama_url(), model: default_model() }
    }
}

} // verus!
