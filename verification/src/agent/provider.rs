//! What a connection asks of the model client: which provider to build, at
//! which address, with which key; and the guard that keeps an API key off
//! plaintext connections to remote hosts.
use vstd::prelude::*;

use crate::agent::effort::ReasoningEffort;
use crate::config::connection::{Connection, ProviderKind};
use crate::text::{
    append, chars_of, ends_with, has_prefix, has_suffix, same, starts_with, string_from,
    strip_suffix, stripped_suffix, trim, trim_end, trimmed, trimmed_end, CharClass,
};

verus! {

/// Why a model client could not be built or its catalog fetched.
#[derive(Debug)]
pub enum ProviderError {
    /// The named connection has an empty `base_url`.
    EmptyBaseUrl(String),
    /// The model catalog could not be fetched; carries the reason.
    Catalog(String),
}

/// `base_url` trimmed, with trailing slashes and then one `/v1` suffix (and
/// the slashes before it) removed.
pub open spec fn normalized_base_url(base_url: Seq<char>) -> Seq<char> {
    let t = trim_end(trim(base_url, CharClass::WhiteSpace), CharClass::Exactly('/'));
    let stripped = match strip_suffix(t, "/v1"@) {
        Some(rest) => rest,
        None => t,
    };
    trim_end(stripped, CharClass::Exactly('/'))
}

/// Stored OpenAI-compatible base URLs carry the `/v1` API prefix, which the
/// client appends itself: strips it (and surrounding white space and
/// trailing slashes).
pub fn normalize_openai_compatible_base_url(base_url: &str) -> (r: String)
    ensures
        r@ == normalized_base_url(base_url@),
{
    let cs = chars_of(base_url);
    let t0 = trimmed(cs.as_slice(), &CharClass::WhiteSpace);
    let t = trimmed_end(t0.as_slice(), &CharClass::Exactly('/'));
    let v1 = chars_of("/v1");
    let stripped = match stripped_suffix(t.as_slice(), v1.as_slice()) {
        Some(rest) => rest,
        None => t,
    };
    let out = trimmed_end(stripped.as_slice(), &CharClass::Exactly('/'));
    string_from(out.as_slice())
}

/// The model client a connection asks for.
#[derive(Debug)]
pub enum ModelPlan {
    /// A generic OpenAI-compatible server at `base_url` (without its `/v1`).
    OpenAiCompatible {
        base_url: String,
        model: String,
        effort: Option<ReasoningEffort>,
        api_key: Option<String>,
    },
    /// An Ollama server.
    Ollama { model: String, base_url: String },
    /// OpenRouter; without a key the client reads its environment.
    OpenRouter { model: String, api_key: Option<String>, base_url: String },
}

/// The key that is sent: none when it is absent or empty.
pub open spec fn sent_key(api_key: Option<String>) -> Option<Seq<char>> {
    match api_key {
        Some(k) => if k@.len() > 0 {
            Some(k@)
        } else {
            None
        },
        None => None,
    }
}

pub open spec fn opt_string_view(o: Option<String>) -> Option<Seq<char>> {
    match o {
        Some(s) => Some(s@),
        None => None,
    }
}

/// Decides the model client for `connection`: refused when its base URL is
/// blank; otherwise the provider it names, the key only when non-empty, and
/// for OpenAI-compatible servers the normalized base URL and the effort.
pub fn plan_model(connection: &Connection, api_key: Option<String>) -> (r: Result<
    ModelPlan,
    ProviderError,
>)
    ensures
        trim(connection.base_url@, CharClass::WhiteSpace).len() == 0 <==> r is Err,
        r matches Err(e) ==> e matches ProviderError::EmptyBaseUrl(n) && n@ == connection.name@,
        r matches Ok(p) ==> match p {
            ModelPlan::OpenAiCompatible { base_url, model, effort, api_key: k } => {
                &&& connection.provider == ProviderKind::OpenAiCompatible
                &&& base_url@ == normalized_base_url(connection.base_url@)
                &&& model@ == connection.default_model@
                &&& effort == connection.effort
                &&& opt_string_view(k) == sent_key(api_key)
            },
            ModelPlan::Ollama { model, base_url } => {
                &&& connection.provider == ProviderKind::Ollama
                &&& model@ == connection.default_model@
                &&& base_url@ == connection.base_url@
            },
            ModelPlan::OpenRouter { model, api_key: k, base_url } => {
                &&& connection.provider == ProviderKind::OpenRouter
                &&& model@ == connection.default_model@
                &&& base_url@ == connection.base_url@
                &&& opt_string_view(k) == sent_key(api_key)
            },
        },
{
    let cs = chars_of(connection.base_url.as_str());
    let t = trimmed(cs.as_slice(), &CharClass::WhiteSpace);
    if t.len() == 0 {
        return Err(ProviderError::EmptyBaseUrl(connection.name.clone()));
    }
    let key = match api_key {
        Some(k) => if chars_of(k.as_str()).len() > 0 {
            Some(k)
        } else {
            None
        },
        None => None,
    };
    match connection.provider {
        ProviderKind::OpenAiCompatible => Ok(
            ModelPlan::OpenAiCompatible {
                base_url: normalize_openai_compatible_base_url(connection.base_url.as_str()),
                model: connection.default_model.clone(),
                effort: connection.effort,
                api_key: key,
            },
        ),
        ProviderKind::Ollama => Ok(
            ModelPlan::Ollama {
                model: connection.default_model.clone(),
                base_url: connection.base_url.clone(),
            },
        ),
        ProviderKind::OpenRouter => Ok(
            ModelPlan::OpenRouter {
                model: connection.default_model.clone(),
                api_key: key,
                base_url: connection.base_url.clone(),
            },
        ),
    }
}

/// The scheme and host of `url` as the URL parser reads them (the host
/// empty when the URL has none), or `None` when it does not parse.
pub uninterp spec fn url_scheme_and_host(url: Seq<char>) -> Option<(Seq<char>, Seq<char>)>;

/// Parses `url` with `reqwest::Url::parse` (the `url` crate) and returns its
/// scheme and its host (`host_str`, empty when it has none). The contract
/// claims only that the result is a function of `url`, named
/// `url_scheme_and_host`; what the parser accepts is not stated.
#[verifier::external_body]
fn parse_scheme_and_host(url: &str) -> (r: Option<(String, String)>)
    ensures
        match r {
            Some((s, h)) => url_scheme_and_host(url@) == Some((s@, h@)),
            None => url_scheme_and_host(url@) is None,
        },
{
    match reqwest::Url::parse(url) {
        Ok(u) => Some((u.scheme().to_string(), u.host_str().unwrap_or_default().to_string())),
        Err(_) => None,
    }
}

/// A host that names this machine.
pub open spec fn is_loopback_host(host: Seq<char>) -> bool {
    ||| host == "localhost"@
    ||| has_suffix(host, ".localhost"@)
    ||| has_prefix(host, "127."@)
    ||| host == "::1"@
    ||| host == "[::1]"@
}

pub open spec fn plaintext_refusal(host: Seq<char>) -> Seq<char> {
    "refusing to send the API key over plaintext http:// to '"@ + host
        + "'; use https:// or remove the key"@
}

/// The scheme and host, as characters.
pub open spec fn parsed_view(p: Option<(String, String)>) -> Option<(Seq<char>, Seq<char>)> {
    match p {
        Some((s, h)) => Some((s@, h@)),
        None => None,
    }
}

/// Whether the guard refuses a request to an address the parser read as
/// `parsed`.
pub open spec fn refuses_plaintext(parsed: Option<(Seq<char>, Seq<char>)>, has_key: bool) -> bool {
    has_key && match parsed {
        Some((s, h)) => s == "http"@ && !is_loopback_host(h),
        None => false,
    }
}

/// The error the guard answers with.
pub open spec fn refusal_of(parsed: Option<(Seq<char>, Seq<char>)>) -> Seq<char> {
    match parsed {
        Some((s, h)) => plaintext_refusal(h),
        None => Seq::empty(),
    }
}

/// The plaintext guard, given what the URL parser made of the address:
/// refuses only a key sent over `http` to a host that is not this machine.
pub fn plaintext_guard(parsed: Option<(String, String)>, has_key: bool) -> (r: Result<
    (),
    ProviderError,
>)
    ensures
        r is Err <==> refuses_plaintext(parsed_view(parsed), has_key),
        r matches Err(e) ==> (e matches ProviderError::Catalog(m) && m@ == refusal_of(
            parsed_view(parsed),
        )),
{
    if !has_key {
        return Ok(());
    }
    match parsed {
        None => Ok(()),
        Some((scheme, host)) => {
            proof {
                reveal_strlit("http");
                reveal_strlit("localhost");
                reveal_strlit(".localhost");
                reveal_strlit("127.");
                reveal_strlit("::1");
                reveal_strlit("[::1]");
            }
            let s = chars_of(scheme.as_str());
            let http = chars_of("http");
            if !same(s.as_slice(), http.as_slice()) {
                return Ok(());
            }
            let h = chars_of(host.as_str());
            let loopback = same(h.as_slice(), chars_of("localhost").as_slice()) || ends_with(
                h.as_slice(),
                chars_of(".localhost").as_slice(),
            ) || starts_with(h.as_slice(), chars_of("127.").as_slice()) || same(
                h.as_slice(),
                chars_of("::1").as_slice(),
            ) || same(h.as_slice(), chars_of("[::1]").as_slice());
            if loopback {
                return Ok(());
            }
            let mut m = chars_of("refusing to send the API key over plaintext http:// to '");
            append(&mut m, h.as_slice());
            append(&mut m, chars_of("'; use https:// or remove the key").as_slice());
            Err(ProviderError::Catalog(string_from(m.as_slice())))
        },
    }
}

/// Refuses to send an API key over plaintext `http://` to a host other than
/// this machine; an address the URL parser rejects passes (the request
/// itself will then fail and say why).
pub fn ensure_not_plaintext_remote(base_url: &str, has_key: bool) -> (r: Result<(), ProviderError>)
    ensures
        !has_key ==> r is Ok,
        r is Err <==> refuses_plaintext(url_scheme_and_host(base_url@), has_key),
        r matches Err(e) ==> (e matches ProviderError::Catalog(m) && m@ == refusal_of(
            url_scheme_and_host(base_url@),
        )),
{
    if !has_key {
        return Ok(());
    }
    let parsed = parse_scheme_and_host(base_url);
    plaintext_guard(parsed, has_key)
}

/// The model catalog's address: the base URL trimmed, without trailing
/// slashes, then `/models`.
pub fn models_url(base_url: &str) -> (r: String)
    ensures
        r@ == trim_end(trim(base_url@, CharClass::WhiteSpace), CharClass::Exactly('/'))
            + "/models"@,
{
    let t0 = trimmed(chars_of(base_url).as_slice(), &CharClass::WhiteSpace);
    let mut t = trimmed_end(t0.as_slice(), &CharClass::Exactly('/'));
    append(&mut t, chars_of("/models").as_slice());
    string_from(t.as_slice())
}

/// The key a catalog request sends: none for an empty one.
pub fn catalog_key(api_key: Option<&str>) -> (r: Option<&str>)
    ensures
        match api_key {
            Some(k) => if k@.len() > 0 {
                r == Some(k)
            } else {
                r is None
            },
            None => r is None,
        },
{
    match api_key {
        Some(k) => if chars_of(k).len() > 0 {
            Some(k)
        } else {
            None
        },
        None => None,
    }
}

/// The catalog error for a response that was not a success: the status and
/// the server's message.
pub fn catalog_api_error(status: &str, message: &str) -> (r: ProviderError)
    ensures
        r matches ProviderError::Catalog(m) && m@ == "API error ("@ + status@ + "): "@ + message@,
{
    let mut m = chars_of("API error (");
    append(&mut m, chars_of(status).as_slice());
    append(&mut m, chars_of("): ").as_slice());
    append(&mut m, chars_of(message).as_slice());
    ProviderError::Catalog(string_from(m.as_slice()))
}

} // verus!
