//! The review tool itself: it carries the endpoint URL and the model name,
//! and shapes the request value that goes to the inference endpoint.

use vstd::prelude::*;
use crate::settings::default_model_view;
use crate::settings::default_ollama_url;
use crate::settings::default_model;
use crate::settings::default_url_view;

verus! {

/// The code-review pipeline's configuration: where to send the prompt and
/// which model to name.
pub struct CodeReviewTool {
    pub ollama_url: String,
    pub model: String,
}

/// The fixed route under the endpoint URL that serves generation.
pub open spec fn generate_route_view() -> Seq<char> {
    "/api/generate"@
}

impl CodeReviewTool {
    /// A review tool for the given endpoint and model; an absent value falls
    /// back to its built-in default.
    pub fn new(ollama_url: Option<String>, model: Option<String>) -> (r: Self)
        ensures
            r.ollama_url@ == (match ollama_url {
                Some(u) => u@,
                None => default_url_view(),
            }),
            r.model@ == (match model {
                Some(m) => m@,
                None => default_model_view(),
            }),
    {
        CodeReviewTool {
            ollama_url: match ollama_url {
                Some(u) => u,
                None => default_ollama_url(),
            },
            model: match model {
                Some(m) => m,
                None => default_model(),
            },
        }
    }

    /// The full URL the review request is posted to.
    pub fn generate_endpoint(&self) -> (r: String)
        ensures
            r@ == self.ollama_url@ + generate_route_view(),
    {
        let mut r = self.ollama_url.clone();
        r.append("/api/generate");
        r
    }

    /// The request value for `prompt`: it names the tool's own model and
    /// carries the non-streaming flag, though the endpoint's line-
    /// delimited response is parsed the same either way.
    pub fn review_request(&self, prompt: String) -> (r: ReviewRequest)
        ensures
            r.model@ == self.model@,
            r.prompt@ == prompt@,
            !r.stream,
    {
        ReviewRequest { model: self.model.clone(), prompt, stream: false }
    }
}

/// The value object sent as the body of the generation request.
pub struct ReviewRequest {
    pub model: String,
    pub prompt: String,
    pub stream: bool,
}

} // verus!
