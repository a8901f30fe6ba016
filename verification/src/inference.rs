//! Where an inference request goes: the provider a model names, the API key
//! to use (the user's before the administrator's) and the provider's base
//! URL; and the normalized response built from what the provider answered.

use vstd::prelude::*;
use crate::text::{before_char, same_text, text_before};
use crate::text_map::TextMap;

verus! {

/// The base URL of a provider, given the Ollama host from the environment.
pub open spec fn base_url(provider: Seq<char>, ollama_host: Option<Seq<char>>) -> Seq<char> {
    if provider == "anthropic"@ {
        "https://api.anthropic.com"@
    } else if provider == "openai"@ {
        "https://api.openai.com"@
    } else if provider == "openrouter"@ {
        "https://openrouter.ai/api"@
    } else if provider == "sambanova"@ {
        "https://api.sambanova.ai"@
    } else if provider == "together"@ {
        "https://api.together.xyz"@
    } else if provider == "deepinfra"@ {
        "https://api.deepinfra.com/v1/openai"@
    } else if provider == "ollama"@ {
        match ollama_host {
            Some(h) => h,
            None => "http://localhost:11434"@,
        }
    } else {
        "https://api."@ + provider + ".com"@
    }
}

/// The API keys by provider: the user's, and the administrator's as the
/// fallback.
#[derive(Debug, Clone)]
pub struct ProviderKeys {
    pub user: TextMap<String>,
    pub admin: TextMap<String>,
}

impl ProviderKeys {
    pub fn new(user: TextMap<String>, admin: TextMap<String>) -> (r: Self)
        ensures
            r.user == user,
            r.admin == admin,
    {
        ProviderKeys { user, admin }
    }

    /// The key for a provider: the user's if there is one, else the
    /// administrator's.
    pub open spec fn key_for(&self, provider: Seq<char>) -> Option<Seq<char>> {
        match self.user.lookup(provider) {
            Some(k) => Some(k@),
            None => match self.admin.lookup(provider) {
                Some(k) => Some(k@),
                None => None,
            },
        }
    }

    /// The API key and base URL for a model named `provider/model`. The
    /// provider is the text before the first `/`; `ollama_host` is the
    /// `OLLAMA_HOST` environment variable, if set.
    pub fn resolve(&self, model: &str, ollama_host: Option<&str>) -> (r: (Option<String>, String))
        ensures
            ({
                let provider = text_before(model@, '/');
                &&& match r.0 {
                    Some(k) => self.key_for(provider) == Some(k@),
                    None => self.key_for(provider) is None,
                }
                &&& r.1@ == base_url(
                    provider,
                    match ollama_host {
                        Some(h) => Some(h@),
                        None => None,
                    },
                )
            }),
    {
        let provider = before_char(model, '/');
        let p = provider.as_str();
        let key = match self.user.get(p) {
            Some(k) => Some(k.clone()),
            None => match self.admin.get(p) {
                Some(k) => Some(k.clone()),
                None => None,
            },
        };
        proof {
            reveal_strlit("anthropic");
            reveal_strlit("openai");
            reveal_strlit("openrouter");
            reveal_strlit("sambanova");
            reveal_strlit("together");
            reveal_strlit("deepinfra");
            reveal_strlit("ollama");
            reveal_strlit("https://api.anthropic.com");
            reveal_strlit("https://api.openai.com");
            reveal_strlit("https://openrouter.ai/api");
            reveal_strlit("https://api.sambanova.ai");
            reveal_strlit("https://api.together.xyz");
            reveal_strlit("https://api.deepinfra.com/v1/openai");
            reveal_strlit("http://localhost:11434");
            reveal_strlit("https://api.");
            reveal_strlit(".com");
        }
        let base = if same_text(p, "anthropic") {
            String::from_str("https://api.anthropic.com")
        } else if same_text(p, "openai") {
            String::from_str("https://api.openai.com")
        } else if same_text(p, "openrouter") {
            String::from_str("https://openrouter.ai/api")
        } else if same_text(p, "sambanova") {
            String::from_str("https://api.sambanova.ai")
        } else if same_text(p, "together") {
            String::from_str("https://api.together.xyz")
        } else if same_text(p, "deepinfra") {
            String::from_str("https://api.deepinfra.com/v1/openai")
        } else if same_text(p, "ollama") {
            match ollama_host {
                Some(h) => String::from_str(h),
                None => String::from_str("http://localhost:11434"),
            }
        } else {
            let mut s = String::from_str("https://api.");
            s.append(p);
            s.append(".com");
            s
        };
        (key, base)
    }
}

// ─── Requests and responses ──────────────────────────────────────────────────

/// The endpoint a chat completion is posted to.
pub fn completions_url(base_url: &str) -> (r: String)
    ensures
        r@ == base_url@ + "/v1/chat/completions"@,
{
    let mut s = String::from_str(base_url);
    s.append("/v1/chat/completions");
    s
}

/// The `authorization` header's value for an API key.
pub fn bearer(key: &str) -> (r: String)
    ensures
        r@ == "Bearer "@ + key@,
{
    let mut s = String::from_str("Bearer ");
    s.append(key);
    s
}

/// A normalized inference response.
#[derive(Debug, Clone)]
pub struct InferenceResponse {
    pub model: String,
    pub reply: String,
    pub provider_id: String,
    pub input_tokens: u32,
    pub output_tokens: u32,
    pub stop_reason: Option<String>,
}

/// The response to a request for `model`, from what the provider's answer
/// holds: the first choice's message content and finish reason, and the
/// prompt and completion token counts. A missing reply is empty, a missing
/// count is 0, and a count is cut to its low 32 bits. The provider is the
/// text of the model name before its first `/`.
pub fn response_from_reply(
    model: String,
    reply: Option<&str>,
    prompt_tokens: Option<u64>,
    completion_tokens: Option<u64>,
    finish_reason: Option<&str>,
) -> (r: InferenceResponse)
    ensures
        r.model@ == model@,
        r.provider_id@ == text_before(model@, '/'),
        r.reply@ == match reply {
            Some(t) => t@,
            None => Seq::<char>::empty(),
        },
        r.input_tokens == (match prompt_tokens {
            Some(n) => n,
            None => 0u64,
        }) as u32,
        r.output_tokens == (match completion_tokens {
            Some(n) => n,
            None => 0u64,
        }) as u32,
        match finish_reason {
            Some(f) => r.stop_reason matches Some(t) && t@ == f@,
            None => r.stop_reason is None,
        },
{
    let provider = before_char(model.as_str(), '/');
    let text = match reply {
        Some(t) => String::from_str(t),
        None => String::new(),
    };
    let input: u64 = match prompt_tokens {
        Some(n) => n,
        None => 0,
    };
    let output: u64 = match completion_tokens {
        Some(n) => n,
        None => 0,
    };
    let stop = match finish_reason {
        Some(f) => Some(String::from_str(f)),
        None => None,
    };
    InferenceResponse {
        model,
        reply: text,
        provider_id: provider,
        input_tokens: input as u32,
        output_tokens: output as u32,
        stop_reason: stop,
    }
}

} // verus!
