//! The router: resolving a canonical request's model name to a
//! registry entry, reading its provider tag, and deciding which
//! adapter handles the call.

use vstd::prelude::*;
use crate::config::{
    first_match_idx, model_split_at, parse_model_ok, parse_model_string, valid_model_string,
    Config, ModelConfig,
};
use crate::error::FeatherGateError;
use crate::text::str_eq;

verus! {

/// The closed set of provider adapters.
#[derive(Debug, Clone, Copy, PartialEq, Eq, Structural)]
pub enum ProviderKind {
    OpenAi,
    Anthropic,
    Gemini,
}

/// The adapter a provider tag selects, if any.
pub open spec fn provider_of(tag: Seq<char>) -> Option<ProviderKind> {
    if tag == "openai"@ {
        Some(ProviderKind::OpenAi)
    } else if tag == "anthropic"@ {
        Some(ProviderKind::Anthropic)
    } else if tag == "gemini"@ {
        Some(ProviderKind::Gemini)
    } else {
        None
    }
}

/// `p` is the provider tag of the well-formed model string `s`.
pub open spec fn provider_tag_of(s: Seq<char>, p: Seq<char>) -> bool {
    valid_model_string(s) && exists|m: Seq<char>| #![auto] parse_model_ok(s, p, m)
}

/// Reads the provider tag off a provider-qualified model string. A
/// malformed string is rejected with exactly the model-string parser's
/// error, message included.
pub fn determine_provider(model: &str) -> (r: Result<String, FeatherGateError>)
    ensures
        match r {
            Ok(p) => provider_tag_of(model@, p@),
            Err(e) => !valid_model_string(model@)
                && (e matches FeatherGateError::InvalidModelString(msg) && {
                    if !(exists|i: int| model_split_at(model@, i)) {
                        msg@ == "期望格式 'provider/model-id'，得到: "@ + model@
                    } else {
                        msg@ == "提供商和模型 ID 不能为空: "@ + model@
                    }
                }),
        },
{
    match parse_model_string(model) {
        Ok((provider, model_id)) => {
            proof {
                assert(parse_model_ok(model@, provider@, model_id@));
                let i = choose|i: int| #![auto] model_split_at(model@, i)
                    && 0 < i < model@.len() - 1
                    && provider@ == model@.subrange(0, i)
                    && model_id@ == model@.subrange(i + 1, model@.len() as int);
                assert(valid_model_string(model@));
                assert(provider_tag_of(model@, provider@));
            }
            Ok(provider)
        }
        Err(e) => {
            proof {
                if valid_model_string(model@) {
                    let i = choose|i: int| #![auto]
                        model_split_at(model@, i) && 0 < i < model@.len() - 1;
                    assert(exists|k: int| model_split_at(model@, k));
                    let j = choose|j: int| #![auto] model_split_at(model@, j)
                        && (j == 0 || j == model@.len() - 1);
                    crate::config::lemma_split_unique(model@, i, j);
                }
            }
            Err(e)
        }
    }
}

/// A successful routing decision: `entry` is the registry's first
/// match for the name, its model string parses to some provider tag
/// and exactly the returned model identifier, and that tag selects the
/// returned adapter.
pub open spec fn route_ok(
    list: Seq<ModelConfig>,
    name: Seq<char>,
    kind: ProviderKind,
    entry: ModelConfig,
    model_id: Seq<char>,
) -> bool {
    exists|i: int, p: Seq<char>| #![auto]
        first_match_idx(list, name, i)
        && entry == list[i]
        && parse_model_ok(list[i].litellm_params.model@, p, model_id)
        && provider_of(p) == Some(kind)
}

/// The registry's first match for the name carries a malformed model
/// string.
pub open spec fn route_bad_model_string(list: Seq<ModelConfig>, name: Seq<char>) -> bool {
    exists|i: int| #![auto]
        first_match_idx(list, name, i)
        && !valid_model_string(list[i].litellm_params.model@)
}

/// The registry's first match for the name parses to the provider tag
/// `p`, which selects no adapter.
pub open spec fn route_unsupported(
    list: Seq<ModelConfig>,
    name: Seq<char>,
    p: Seq<char>,
) -> bool {
    exists|i: int, m: Seq<char>| #![auto]
        first_match_idx(list, name, i)
        && parse_model_ok(list[i].litellm_params.model@, p, m)
        && provider_of(p) is None
}

/// The routing decision for one request: the selected adapter, the
/// registry entry that first matched the model name, and the native
/// model identifier parsed out of the entry.
///
/// Each failure names its cause: an unknown model name, an entry whose
/// model string does not parse, or a provider tag that selects no
/// adapter — each exactly when that is what the registry holds.
pub fn plan_route<'a>(config: &'a Config, model_name: &str) -> (r: Result<
    (ProviderKind, &'a ModelConfig, String),
    FeatherGateError,
>)
    ensures
        match r {
            Ok(t) => route_ok(config.model_list@, model_name@, t.0, *t.1, t.2@),
            Err(e) => match e {
                FeatherGateError::ModelNotFound(m) => m@ == model_name@
                    && (forall|i: int| 0 <= i < config.model_list@.len()
                        ==> (#[trigger] config.model_list@[i]).model_name@ != model_name@),
                FeatherGateError::InvalidModelString(_) =>
                    route_bad_model_string(config.model_list@, model_name@),
                FeatherGateError::UnsupportedProvider(p) =>
                    route_unsupported(config.model_list@, model_name@, p@),
                _ => false,
            },
        },
{
    let entry = match config.find_model(model_name) {
        Some(e) => e,
        None => {
            return Err(FeatherGateError::ModelNotFound(String::from_str(model_name)));
        }
    };
    let parsed = match parse_model_string(entry.litellm_params.model.as_str()) {
        Ok(pm) => pm,
        Err(e) => {
            proof {
                let s = entry.litellm_params.model@;
                if valid_model_string(s) {
                    let i = choose|i: int| #![auto] model_split_at(s, i) && 0 < i < s.len() - 1;
                    assert(exists|k: int| model_split_at(s, k));
                    let j = choose|j: int| #![auto] model_split_at(s, j)
                        && (j == 0 || j == s.len() - 1);
                    crate::config::lemma_split_unique(s, i, j);
                }
                let k = choose|k: int| #![auto]
                    first_match_idx(config.model_list@, model_name@, k)
                    && *entry == config.model_list@[k];
                assert(first_match_idx(config.model_list@, model_name@, k));
                assert(!valid_model_string(config.model_list@[k].litellm_params.model@));
                assert(route_bad_model_string(config.model_list@, model_name@));
            }
            return Err(e);
        }
    };
    let provider = parsed.0;
    let model_id = parsed.1;
    let is_openai = str_eq(provider.as_str(), "openai");
    let is_anthropic = str_eq(provider.as_str(), "anthropic");
    let is_gemini = str_eq(provider.as_str(), "gemini");
    if is_openai || is_anthropic || is_gemini {
        let kind = if is_openai {
            ProviderKind::OpenAi
        } else if is_anthropic {
            ProviderKind::Anthropic
        } else {
            ProviderKind::Gemini
        };
        proof {
            let i = choose|i: int| #![auto]
                first_match_idx(config.model_list@, model_name@, i)
                && *entry == config.model_list@[i];
            assert(first_match_idx(config.model_list@, model_name@, i));
            assert(parse_model_ok(config.model_list@[i].litellm_params.model@, provider@,
                model_id@));
            assert(provider_of(provider@) == Some(kind));
            assert(route_ok(config.model_list@, model_name@, kind, *entry, model_id@));
        }
        Ok((kind, entry, model_id))
    } else {
        proof {
            let i = choose|i: int| #![auto]
                first_match_idx(config.model_list@, model_name@, i)
                && *entry == config.model_list@[i];
            assert(first_match_idx(config.model_list@, model_name@, i));
            assert(parse_model_ok(config.model_list@[i].litellm_params.model@, provider@,
                model_id@));
            assert(provider_of(provider@) is None);
            assert(route_unsupported(config.model_list@, model_name@, provider@));
        }
        Err(FeatherGateError::UnsupportedProvider(provider))
    }
}

} // verus!
