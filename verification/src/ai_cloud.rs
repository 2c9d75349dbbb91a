//! The AI assistant's runtime settings and its conversations with models:
//! the prompts of each feature, the requests to cloud providers and what
//! their replies say, and the model lists they offer. Running a model and
//! sending a request is the application's part.
use vstd::prelude::*;
use crate::ai::{AiError, CloudProviderRuntime};
use crate::config::{AppConfig, CloudProviderConfig};
use crate::desktop::{cloud_provider_key, provider_key};
use crate::json::{
    entries_get, jentries, jget, jget_opt, jstr, jtext, jview, jviews, json_get, opt_ref, push_item, put,
    JsonNumber, JsonValue, JsonView,
};
use crate::mail::opt_text;
use crate::model::{AiMode, CloudAiProvider, DataProvenance};
use crate::text::{chars_of, ends_with, extend, has_suffix, matches_at, occurs_at, push_str, starts_with, string_from_chars, strip_end, trim_end_char};
use crate::texts::{has_text, insert_text, sort_texts, strictly_ascending, text_set, text_views, ascending_texts};

verus! {

// ------------------------------------------------------------------ runtime settings

/// How the local model is run. (Its sampling temperature, a float, is the
/// application's.)
#[derive(Debug, Clone)]
pub struct LocalRuntime {
    pub enabled: bool,
    pub llama_cpp_binary: Option<String>,
    pub model_path: Option<String>,
    pub max_tokens: usize,
}

/// The AI settings the assistant runs with: the local model, whether cloud
/// inference is on and for which features (ascending, each once), and the
/// cloud providers (in provider order, each once).
#[derive(Debug, Clone)]
pub struct AiRuntimeConfig {
    pub local: LocalRuntime,
    pub cloud_enabled: bool,
    pub cloud_feature_opt_in: Vec<String>,
    pub cloud: Vec<(CloudAiProvider, CloudProviderRuntime)>,
}

/// The providers in their order.
pub open spec fn all_providers() -> Seq<CloudAiProvider> {
    seq![CloudAiProvider::OpenAi, CloudAiProvider::Anthropic, CloudAiProvider::Gemini, CloudAiProvider::Mistral,
        CloudAiProvider::Groq, CloudAiProvider::Grok, CloudAiProvider::OpenRouter]
}

/// A provider's name as its `Debug` form writes it.
pub open spec fn provider_name(p: CloudAiProvider) -> Seq<char> {
    match p {
        CloudAiProvider::OpenAi => "OpenAi"@,
        CloudAiProvider::Anthropic => "Anthropic"@,
        CloudAiProvider::Gemini => "Gemini"@,
        CloudAiProvider::Mistral => "Mistral"@,
        CloudAiProvider::Groq => "Groq"@,
        CloudAiProvider::Grok => "Grok"@,
        CloudAiProvider::OpenRouter => "OpenRouter"@,
    }
}

pub fn provider_name_of(p: CloudAiProvider) -> (r: &'static str)
    ensures
        r@ == provider_name(p),
{
    match p {
        CloudAiProvider::OpenAi => "OpenAi",
        CloudAiProvider::Anthropic => "Anthropic",
        CloudAiProvider::Gemini => "Gemini",
        CloudAiProvider::Mistral => "Mistral",
        CloudAiProvider::Groq => "Groq",
        CloudAiProvider::Grok => "Grok",
        CloudAiProvider::OpenRouter => "OpenRouter",
    }
}

pub open spec fn default_model(p: CloudAiProvider) -> Seq<char> {
    match p {
        CloudAiProvider::OpenAi => "gpt-4o-mini"@,
        CloudAiProvider::Anthropic => Seq::empty(),
        CloudAiProvider::Gemini => "gemini-1.5-pro"@,
        CloudAiProvider::Mistral => "mistral-large-latest"@,
        CloudAiProvider::Groq => "llama-3.3-70b-versatile"@,
        CloudAiProvider::Grok => "grok-beta"@,
        CloudAiProvider::OpenRouter => "openrouter/auto"@,
    }
}

pub open spec fn default_endpoint(p: CloudAiProvider) -> Seq<char> {
    match p {
        CloudAiProvider::OpenAi => "https://api.openai.com/v1/chat/completions"@,
        CloudAiProvider::Anthropic => "https://api.anthropic.com/v1/messages"@,
        CloudAiProvider::Gemini => "https://generativelanguage.googleapis.com/v1beta"@,
        CloudAiProvider::Mistral => "https://api.mistral.ai/v1/chat/completions"@,
        CloudAiProvider::Groq => "https://api.groq.com/openai/v1/chat/completions"@,
        CloudAiProvider::Grok => "https://api.x.ai/v1/chat/completions"@,
        CloudAiProvider::OpenRouter => "https://openrouter.ai/api/v1/chat/completions"@,
    }
}

fn default_runtime(p: CloudAiProvider) -> (r: CloudProviderRuntime)
    ensures
        !r.enabled,
        r.model@ == default_model(p),
        opt_text(r.endpoint) == Some(default_endpoint(p)),
{
    let (model, endpoint) = match p {
        CloudAiProvider::OpenAi => ("gpt-4o-mini", "https://api.openai.com/v1/chat/completions"),
        CloudAiProvider::Anthropic => ("", "https://api.anthropic.com/v1/messages"),
        CloudAiProvider::Gemini => ("gemini-1.5-pro", "https://generativelanguage.googleapis.com/v1beta"),
        CloudAiProvider::Mistral => ("mistral-large-latest", "https://api.mistral.ai/v1/chat/completions"),
        CloudAiProvider::Groq => ("llama-3.3-70b-versatile", "https://api.groq.com/openai/v1/chat/completions"),
        CloudAiProvider::Grok => ("grok-beta", "https://api.x.ai/v1/chat/completions"),
        CloudAiProvider::OpenRouter => ("openrouter/auto", "https://openrouter.ai/api/v1/chat/completions"),
    };
    proof {
        reveal_strlit("");
    }
    CloudProviderRuntime { enabled: false, model: model.to_owned(), endpoint: Some(endpoint.to_owned()) }
}

fn providers_in_order() -> (r: Vec<CloudAiProvider>)
    ensures
        r@ == all_providers(),
{
    let mut v: Vec<CloudAiProvider> = Vec::new();
    v.push(CloudAiProvider::OpenAi);
    v.push(CloudAiProvider::Anthropic);
    v.push(CloudAiProvider::Gemini);
    v.push(CloudAiProvider::Mistral);
    v.push(CloudAiProvider::Groq);
    v.push(CloudAiProvider::Grok);
    v.push(CloudAiProvider::OpenRouter);
    assert(v@ =~= all_providers());
    v
}

impl Default for AiRuntimeConfig {
    /// The local model on with 512 tokens and no paths; cloud inference off,
    /// no feature opted in; every provider present but off, with its usual
    /// model and address.
    fn default() -> (r: AiRuntimeConfig)
        ensures
            r.local.enabled,
            r.local.llama_cpp_binary.is_none(),
            r.local.model_path.is_none(),
            r.local.max_tokens == 512,
            !r.cloud_enabled,
            r.cloud_feature_opt_in@.len() == 0,
            r.cloud@.len() == all_providers().len(),
            forall|i: int| 0 <= i < r.cloud@.len() ==> (#[trigger] r.cloud@[i]).0 == all_providers()[i]
                && !r.cloud@[i].1.enabled && r.cloud@[i].1.model@ == default_model(all_providers()[i])
                && opt_text(r.cloud@[i].1.endpoint) == Some(default_endpoint(all_providers()[i])),
    {
        let order = providers_in_order();
        let mut cloud: Vec<(CloudAiProvider, CloudProviderRuntime)> = Vec::new();
        for i in 0..order.len()
            invariant
                order@ == all_providers(),
                cloud@.len() == i,
                forall|j: int| 0 <= j < i ==> (#[trigger] cloud@[j]).0 == all_providers()[j]
                    && !cloud@[j].1.enabled && cloud@[j].1.model@ == default_model(all_providers()[j])
                    && opt_text(cloud@[j].1.endpoint) == Some(default_endpoint(all_providers()[j])),
        {
            let p = order[i];
            cloud.push((p, default_runtime(p)));
        }
        AiRuntimeConfig {
            local: LocalRuntime { enabled: true, llama_cpp_binary: None, model_path: None, max_tokens: 512 },
            cloud_enabled: false,
            cloud_feature_opt_in: Vec::new(),
            cloud,
        }
    }
}

/// The settings of the provider named `key`: the first entry under it.
pub open spec fn provider_config(ps: Seq<(String, CloudProviderConfig)>, key: Seq<char>) -> Option<CloudProviderConfig>
    decreases ps.len(),
{
    if ps.len() == 0 {
        None
    } else if ps[0].0@ == key {
        Some(ps[0].1)
    } else {
        provider_config(ps.drop_first(), key)
    }
}

/// The providers, in order, that have settings.
pub open spec fn configured(ps: Seq<(String, CloudProviderConfig)>, order: Seq<CloudAiProvider>) -> Seq<CloudAiProvider>
    decreases order.len(),
{
    if order.len() == 0 {
        Seq::empty()
    } else if provider_config(ps, provider_key(order.last())).is_some() {
        configured(ps, order.drop_last()).push(order.last())
    } else {
        configured(ps, order.drop_last())
    }
}

/// A provider's runtime settings are its configured ones.
pub open spec fn runtime_of(rt: CloudProviderRuntime, c: CloudProviderConfig) -> bool {
    &&& rt.enabled == c.enabled
    &&& rt.model@ == c.model@
    &&& opt_text(rt.endpoint) == opt_text(c.api_base)
}

fn lookup_provider(ps: &Vec<(String, CloudProviderConfig)>, key: &str) -> (r: Option<CloudProviderRuntime>)
    ensures
        match provider_config(ps@, key@) {
            Some(c) => r matches Some(rt) && runtime_of(rt, c),
            None => r.is_none(),
        },
{
    let k = chars_of(key);
    let mut i: usize = 0;
    assert(ps@.skip(0) =~= ps@);
    while i < ps.len()
        invariant
            i <= ps.len(),
            k@ == key@,
            provider_config(ps@, key@) == provider_config(ps@.skip(i as int), key@),
        decreases ps.len() - i,
    {
        assert(ps@.skip(i as int).drop_first() =~= ps@.skip(i + 1));
        assert(ps@.skip(i as int)[0] == ps@[i as int]);
        if crate::text::seq_eq(chars_of(ps[i].0.as_str()).as_slice(), k.as_slice()) {
            let c = &ps[i].1;
            let endpoint = match &c.api_base {
                Some(e) => Some(e.clone()),
                None => None,
            };
            return Some(CloudProviderRuntime { enabled: c.enabled, model: c.model.clone(), endpoint });
        }
        i = i + 1;
    }
    None
}

/// The runtime settings of the application settings: the local model as
/// set (its token budget the context size), cloud inference as set, the
/// opted-in features as a set, and each provider that has settings.
pub fn ai_runtime_from_config(config: &AppConfig) -> (r: AiRuntimeConfig)
    ensures
        r.local.enabled == config.ai.local.enabled,
        opt_text(r.local.llama_cpp_binary) == opt_text(config.ai.local.llama_cpp_binary),
        opt_text(r.local.model_path) == opt_text(config.ai.local.model_path),
        r.local.max_tokens == config.ai.local.context_tokens,
        r.cloud_enabled == config.ai.cloud.enabled,
        strictly_ascending(r.cloud_feature_opt_in@),
        forall|y: Seq<char>| #[trigger] has_text(r.cloud_feature_opt_in@, y) <==> has_text(config.ai.cloud.feature_opt_in@, y),
        r.cloud@.len() == configured(config.ai.cloud.providers@, all_providers()).len(),
        forall|i: int| 0 <= i < r.cloud@.len() ==> (#[trigger] r.cloud@[i]).0 == configured(config.ai.cloud.providers@, all_providers())[i]
            && runtime_of(r.cloud@[i].1, provider_config(config.ai.cloud.providers@, provider_key(r.cloud@[i].0))->0),
{
    let order = providers_in_order();
    let ps = &config.ai.cloud.providers;
    let mut cloud: Vec<(CloudAiProvider, CloudProviderRuntime)> = Vec::new();
    for i in 0..order.len()
        invariant
            order@ == all_providers(),
            cloud@.len() == configured(ps@, order@.take(i as int)).len(),
            forall|j: int| 0 <= j < cloud@.len() ==> (#[trigger] cloud@[j]).0 == configured(ps@, order@.take(i as int))[j]
                && runtime_of(cloud@[j].1, provider_config(ps@, provider_key(cloud@[j].0))->0),
    {
        let p = order[i];
        assert(order@.take(i + 1).drop_last() =~= order@.take(i as int));
        assert(order@.take(i + 1).last() == p);
        let ghost before = cloud@;
        match lookup_provider(ps, cloud_provider_key(p)) {
            Some(rt) => {
                cloud.push((p, rt));
                assert forall|j: int| 0 <= j < cloud@.len() implies (#[trigger] cloud@[j]).0 == configured(ps@, order@.take(i + 1))[j]
                    && runtime_of(cloud@[j].1, provider_config(ps@, provider_key(cloud@[j].0))->0) by {
                    if j < before.len() {
                        assert(cloud@[j] == before[j]);
                    }
                }
            },
            None => {},
        }
    }
    assert(order@.take(order@.len() as int) =~= order@);
    let local = LocalRuntime {
        enabled: config.ai.local.enabled,
        llama_cpp_binary: match &config.ai.local.llama_cpp_binary {
            Some(b) => Some(b.clone()),
            None => None,
        },
        model_path: match &config.ai.local.model_path {
            Some(m) => Some(m.clone()),
            None => None,
        },
        max_tokens: config.ai.local.context_tokens,
    };
    AiRuntimeConfig {
        local,
        cloud_enabled: config.ai.cloud.enabled,
        cloud_feature_opt_in: text_set(&config.ai.cloud.feature_opt_in),
        cloud,
    }
}


// ------------------------------------------------------------------ prompts

/// The first `n` characters of a text.
pub open spec fn first_chars(t: Seq<char>, n: nat) -> Seq<char> {
    if t.len() <= n { t } else { t.take(n as int) }
}

fn take_chars(t: &str, n: usize) -> (r: Vec<char>)
    ensures
        r@ == first_chars(t@, n as nat),
{
    let cs = chars_of(t);
    if cs.len() <= n {
        return cs;
    }
    let mut out: Vec<char> = Vec::new();
    for i in 0..n
        invariant
            cs@ == t@,
            cs@.len() > n,
            out@ == cs@.take(i as int),
    {
        out.push(cs[i]);
        assert(out@ =~= cs@.take(i + 1));
    }
    out
}

pub open spec fn summarize_email_text(subject: Seq<char>, body: Seq<char>) -> Seq<char> {
    "Summarize this email in 4 bullet points. Subject: "@ + subject + "\nBody:\n"@ + body
}

/// The prompt that asks for a summary of one mail.
pub fn summarize_email_prompt(subject: &str, body: &str) -> (r: String)
    ensures
        r@ == summarize_email_text(subject@, body@),
{
    let mut t = chars_of("Summarize this email in 4 bullet points. Subject: ");
    push_str(&mut t, subject);
    push_str(&mut t, "\nBody:\n");
    push_str(&mut t, body);
    string_from_chars(t.as_slice())
}

/// One message of a thread in its summary prompt: its number, sender,
/// subject, and the first 500 characters of its body.
pub open spec fn thread_message_text(n: nat, m: (String, String, String)) -> Seq<char> {
    "Message "@ + crate::numbers::decimal(n) + ": From: "@ + m.0@ + ", Subject: "@ + m.1@ + "\n"@ + first_chars(m.2@, 500) + "\n\n"@
}

pub open spec fn thread_messages_text(ms: Seq<(String, String, String)>) -> Seq<char>
    decreases ms.len(),
{
    if ms.len() == 0 {
        Seq::empty()
    } else {
        thread_messages_text(ms.drop_last()) + thread_message_text(ms.len() as nat, ms.last())
    }
}

pub open spec fn summarize_thread_text(ms: Seq<(String, String, String)>) -> Seq<char> {
    "Summarize this email thread in 3-5 bullet points:\n\n"@ + thread_messages_text(ms)
}

/// The prompt that asks for a summary of a thread, given its messages as
/// (sender, subject, body).
pub fn summarize_thread_prompt(messages: &Vec<(String, String, String)>) -> (r: String)
    requires
        messages@.len() < u64::MAX,
    ensures
        r@ == summarize_thread_text(messages@),
{
    let mut t = chars_of("Summarize this email thread in 3-5 bullet points:\n\n");
    let ghost head = t@;
    for i in 0..messages.len()
        invariant
            messages@.len() < u64::MAX,
            t@ == head + thread_messages_text(messages@.take(i as int)),
    {
        proof {
            assert(messages@.take(i + 1).drop_last() =~= messages@.take(i as int));
            assert(messages@.take(i + 1).last() == messages@[i as int]);
        }
        let part = thread_message(i + 1, &messages[i]);
        let ghost before = t@;
        extend(&mut t, part.as_slice());
        proof {
            assert(thread_messages_text(messages@.take(i + 1))
                == thread_messages_text(messages@.take(i as int)) + thread_message_text((i + 1) as nat, messages@[i as int]));
            assert(t@ =~= head + thread_messages_text(messages@.take(i + 1)));
        }
    }
    assert(messages@.take(messages@.len() as int) =~= messages@);
    string_from_chars(t.as_slice())
}

fn thread_message(n: usize, m: &(String, String, String)) -> (r: Vec<char>)
    ensures
        r@ == thread_message_text(n as nat, *m),
{
    let mut t = chars_of("Message ");
    let d = crate::numbers::decimal_text(n as u64);
    extend(&mut t, d.as_slice());
    push_str(&mut t, ": From: ");
    push_str(&mut t, m.0.as_str());
    push_str(&mut t, ", Subject: ");
    push_str(&mut t, m.1.as_str());
    push_str(&mut t, "\n");
    let snippet = take_chars(m.2.as_str(), 500);
    extend(&mut t, snippet.as_slice());
    push_str(&mut t, "\n\n");
    t
}

pub open spec fn draft_reply_text(sender: Seq<char>, subject: Seq<char>, body: Seq<char>) -> Seq<char> {
    "Draft a brief, professional reply to this email. Only output the reply body.\nFrom: "@ + sender + "\nSubject: "@
        + subject + "\n\n"@ + first_chars(body, 1000)
}

/// The prompt that asks for a draft reply to the latest message, from the
/// first 1000 characters of its body.
pub fn draft_reply_prompt(sender: &str, subject: &str, body: &str) -> (r: String)
    ensures
        r@ == draft_reply_text(sender@, subject@, body@),
{
    let mut t = chars_of("Draft a brief, professional reply to this email. Only output the reply body.\nFrom: ");
    push_str(&mut t, sender);
    push_str(&mut t, "\nSubject: ");
    push_str(&mut t, subject);
    push_str(&mut t, "\n\n");
    let snippet = take_chars(body, 1000);
    extend(&mut t, snippet.as_slice());
    string_from_chars(t.as_slice())
}

pub open spec fn generate_text(prompt: Seq<char>, format: Seq<char>, tone: Seq<char>, length: Seq<char>) -> Seq<char> {
    "Generate a message based on the user's prompt.\nEnforce the following constraints strictly:\n- Format: "@ + format
        + "\n- Tone: "@ + tone + "\n- Length: "@ + length + "\n\nUser Prompt: "@ + prompt
}

/// The prompt that asks for a message of a given format, tone and length.
pub fn generate_message_prompt(prompt: &str, format: &str, tone: &str, length: &str) -> (r: String)
    ensures
        r@ == generate_text(prompt@, format@, tone@, length@),
{
    let mut t = chars_of("Generate a message based on the user's prompt.\nEnforce the following constraints strictly:\n- Format: ");
    push_str(&mut t, format);
    push_str(&mut t, "\n- Tone: ");
    push_str(&mut t, tone);
    push_str(&mut t, "\n- Length: ");
    push_str(&mut t, length);
    push_str(&mut t, "\n\nUser Prompt: ");
    push_str(&mut t, prompt);
    string_from_chars(t.as_slice())
}

pub open spec fn suggest_reply_text(subject: Seq<char>, body: Seq<char>) -> Seq<char> {
    "Draft a concise, polite reply. Never send automatically. Subject: "@ + subject + "\nBody:\n"@ + body
}

/// The prompt that asks for a reply, to be reviewed before sending.
pub fn suggest_reply_prompt(subject: &str, body: &str) -> (r: String)
    ensures
        r@ == suggest_reply_text(subject@, body@),
{
    let mut t = chars_of("Draft a concise, polite reply. Never send automatically. Subject: ");
    push_str(&mut t, subject);
    push_str(&mut t, "\nBody:\n");
    push_str(&mut t, body);
    string_from_chars(t.as_slice())
}

pub open spec fn action_items_text(body: Seq<char>) -> Seq<char> {
    "Extract action items from this email as one short line each:\n"@ + body
}

/// The prompt that asks for the action items of a mail.
pub fn action_items_prompt(body: &str) -> (r: String)
    ensures
        r@ == action_items_text(body@),
{
    let mut t = chars_of("Extract action items from this email as one short line each:\n");
    push_str(&mut t, body);
    string_from_chars(t.as_slice())
}

// ------------------------------------------------------------------ routing

/// Where a feature's data went, and why: the device for local inference,
/// the provider's API for cloud inference.
pub open spec fn provenance_of(d: DataProvenance, feature: Seq<char>, mode: AiMode, provider: CloudAiProvider) -> bool {
    &&& d.feature@ == feature
    &&& d.mode == mode
    &&& d.destination@ == match mode {
        AiMode::Local => "local_device"@,
        AiMode::Cloud => provider_name(provider) + " API"@,
    }
    &&& d.reason@ == match mode {
        AiMode::Local => "Local model inference"@,
        AiMode::Cloud => "User opted in for cloud inference"@,
    }
}

pub fn data_provenance(feature: &str, mode: AiMode, provider: CloudAiProvider) -> (r: DataProvenance)
    ensures
        provenance_of(r, feature@, mode, provider),
{
    match mode {
        AiMode::Local => DataProvenance {
            feature: feature.to_owned(),
            mode: AiMode::Local,
            destination: "local_device".to_owned(),
            reason: "Local model inference".to_owned(),
        },
        AiMode::Cloud => {
            let mut d = chars_of(provider_name_of(provider));
            push_str(&mut d, " API");
            DataProvenance {
                feature: feature.to_owned(),
                mode: AiMode::Cloud,
                destination: string_from_chars(d.as_slice()),
                reason: "User opted in for cloud inference".to_owned(),
            }
        },
    }
}

/// The name under which an answer is reported: `llama.cpp` for the local
/// model, the provider's name for the cloud.
pub open spec fn answer_source(mode: AiMode, provider: CloudAiProvider) -> Seq<char> {
    match mode {
        AiMode::Local => "llama.cpp"@,
        AiMode::Cloud => provider_name(provider),
    }
}

pub fn answer_source_of(mode: AiMode, provider: CloudAiProvider) -> (r: String)
    ensures
        r@ == answer_source(mode, provider),
{
    match mode {
        AiMode::Local => "llama.cpp".to_owned(),
        AiMode::Cloud => provider_name_of(provider).to_owned(),
    }
}

/// The provider a feature's cloud request may go to, once cloud inference
/// and the feature's opt-in were checked; only `cloud_route` makes one.
#[derive(Debug)]
pub struct CloudRoute {
    provider: CloudAiProvider,
}

impl CloudRoute {
    pub closed spec fn target(&self) -> CloudAiProvider {
        self.provider
    }

    pub fn provider(&self) -> (r: CloudAiProvider)
        ensures
            r == self.target(),
    {
        self.provider
    }
}

/// The provider a cloud request of a feature goes to: cloud inference must
/// be on and the feature opted in, and a provider must be named.
pub fn cloud_route(config: &AiRuntimeConfig, feature: &str, provider: Option<CloudAiProvider>) -> (r: Result<CloudRoute, AiError>)
    ensures
        !config.cloud_enabled ==> (r matches Err(AiError::CloudOptInRequired(m)) && m@ == "cloud AI is globally disabled"@),
        config.cloud_enabled && !crate::ai::opted_in(config.cloud_feature_opt_in@, feature@) ==> (r matches Err(AiError::CloudOptInRequired(m))
            && m@ == "feature `"@ + feature@ + "` is not opted in for cloud"@),
        config.cloud_enabled && crate::ai::opted_in(config.cloud_feature_opt_in@, feature@) ==> match provider {
            Some(p) => r matches Ok(route) && route.target() == p,
            None => r matches Err(AiError::Config(m)) && m@ == "cloud provider is required"@,
        },
{
    match crate::ai::ensure_cloud_allowed(config.cloud_enabled, &config.cloud_feature_opt_in, feature) {
        Err(e) => Err(e),
        Ok(()) => match provider {
            Some(p) => Ok(CloudRoute { provider: p }),
            None => Err(AiError::Config("cloud provider is required".to_owned())),
        },
    }
}

/// The commands that run the local model: the llama.cpp program and the
/// model file. Local inference must be on and both set.
pub fn local_command(local: &LocalRuntime) -> (r: Result<(String, String), AiError>)
    ensures
        match r {
            Ok((b, m)) => local.enabled && opt_text(local.llama_cpp_binary) == Some(b@) && opt_text(local.model_path) == Some(m@),
            Err(AiError::Config(e)) => if !local.enabled {
                e@ == "local AI is disabled"@
            } else if local.llama_cpp_binary.is_none() {
                e@ == "llama.cpp binary path is missing"@
            } else {
                local.model_path.is_none() && e@ == "GGUF model path is missing"@
            },
            Err(_) => false,
        },
{
    if !local.enabled {
        return Err(AiError::Config("local AI is disabled".to_owned()));
    }
    let binary = match &local.llama_cpp_binary {
        Some(b) => b.clone(),
        None => return Err(AiError::Config("llama.cpp binary path is missing".to_owned())),
    };
    let model = match &local.model_path {
        Some(m) => m.clone(),
        None => return Err(AiError::Config("GGUF model path is missing".to_owned())),
    };
    Ok((binary, model))
}


// ------------------------------------------------------------------ cloud requests

/// How a cloud request carries the API key.
#[derive(Debug, Clone, PartialEq, Eq)]
pub enum CloudAuth {
    /// `Authorization: Bearer <key>`.
    Bearer(String),
    /// `x-api-key: <key>` with `anthropic-version: 2023-06-01`.
    AnthropicKey(String),
    /// The key is part of the address.
    InAddress,
}

/// A request to a cloud model: where it goes, how it authenticates, what
/// it sends.
#[derive(Debug)]
pub struct CloudRequest {
    pub url: String,
    pub auth: CloudAuth,
    pub body: JsonValue,
}

/// The runtime settings of a provider: the first entry for it.
pub open spec fn provider_runtime(cloud: Seq<(CloudAiProvider, CloudProviderRuntime)>, p: CloudAiProvider) -> Option<CloudProviderRuntime>
    decreases cloud.len(),
{
    if cloud.len() == 0 {
        None
    } else if cloud[0].0 == p {
        Some(cloud[0].1)
    } else {
        provider_runtime(cloud.drop_first(), p)
    }
}

pub open spec fn chat_message(role: Seq<char>, content: Seq<char>) -> JsonView {
    JsonView::Object(seq![("role"@, JsonView::Str(role)), ("content"@, JsonView::Str(content))])
}

/// The body of a chat request to an OpenAI-style provider: the model, the
/// assistant's system line and the prompt.
pub open spec fn chat_body(model: Seq<char>, prompt: Seq<char>) -> JsonView {
    JsonView::Object(seq![
        ("model"@, JsonView::Str(model)),
        ("messages"@, JsonView::Array(seq![chat_message("system"@, "You are Cove Mail's assistant."@), chat_message("user"@, prompt)])),
    ])
}

/// The body of a request to Anthropic: the model, at most 512 tokens, the
/// prompt.
pub open spec fn anthropic_body(model: Seq<char>, prompt: Seq<char>) -> JsonView {
    JsonView::Object(seq![
        ("model"@, JsonView::Str(model)),
        ("max_tokens"@, JsonView::Number(JsonNumber::PosInt(512))),
        ("messages"@, JsonView::Array(seq![chat_message("user"@, prompt)])),
    ])
}

/// The body of a request to Gemini: the prompt as the one part.
pub open spec fn gemini_body(prompt: Seq<char>) -> JsonView {
    JsonView::Object(seq![
        ("contents"@, JsonView::Array(seq![JsonView::Object(seq![
            ("parts"@, JsonView::Array(seq![JsonView::Object(seq![("text"@, JsonView::Str(prompt))])])),
        ])])),
    ])
}

/// Why there can be no cloud request to `p`: the provider must have
/// settings, be on, have an API key and an address.
pub open spec fn cloud_problem(cloud: Seq<(CloudAiProvider, CloudProviderRuntime)>, p: CloudAiProvider, key: Option<Seq<char>>) -> Option<Seq<char>> {
    match provider_runtime(cloud, p) {
        None => Some("missing provider config for "@ + provider_name(p)),
        Some(rt) => if !rt.enabled {
            Some("provider "@ + provider_name(p) + " is disabled"@)
        } else if key.is_none() {
            Some("missing API key for "@ + provider_name(p))
        } else if rt.endpoint.is_none() {
            Some("missing endpoint for "@ + provider_name(p))
        } else {
            None
        },
    }
}

/// Where a request to `p` goes: its address, and for Gemini the model's
/// `generateContent` method under it with the key.
pub open spec fn request_url(rt: CloudProviderRuntime, p: CloudAiProvider, key: Seq<char>) -> Seq<char> {
    let e = opt_text(rt.endpoint)->0;
    match p {
        CloudAiProvider::Gemini => e + "/models/"@ + rt.model@ + ":generateContent?key="@ + key,
        _ => e,
    }
}

pub open spec fn request_body(rt: CloudProviderRuntime, p: CloudAiProvider, prompt: Seq<char>) -> JsonView {
    match p {
        CloudAiProvider::Anthropic => anthropic_body(rt.model@, prompt),
        CloudAiProvider::Gemini => gemini_body(prompt),
        _ => chat_body(rt.model@, prompt),
    }
}

/// The key goes in an `x-api-key` header to Anthropic, in the address to
/// Gemini, as a bearer token to the others.
pub open spec fn auth_fits(a: CloudAuth, p: CloudAiProvider, key: Seq<char>) -> bool {
    match p {
        CloudAiProvider::Anthropic => a matches CloudAuth::AnthropicKey(k) && k@ == key,
        CloudAiProvider::Gemini => a is InAddress,
        _ => a matches CloudAuth::Bearer(k) && k@ == key,
    }
}

fn runtime_for(cloud: &Vec<(CloudAiProvider, CloudProviderRuntime)>, p: CloudAiProvider) -> (r: Option<&CloudProviderRuntime>)
    ensures
        match r {
            Some(rt) => provider_runtime(cloud@, p) == Some(*rt),
            None => provider_runtime(cloud@, p).is_none(),
        },
{
    let mut i: usize = 0;
    assert(cloud@.skip(0) =~= cloud@);
    while i < cloud.len()
        invariant
            i <= cloud.len(),
            provider_runtime(cloud@, p) == provider_runtime(cloud@.skip(i as int), p),
        decreases cloud.len() - i,
    {
        assert(cloud@.skip(i as int).drop_first() =~= cloud@.skip(i + 1));
        assert(cloud@.skip(i as int)[0] == cloud@[i as int]);
        if cloud[i].0 == p {
            return Some(&cloud[i].1);
        }
        i = i + 1;
    }
    None
}

fn message_value(role: &str, content: &str) -> (r: JsonValue)
    ensures
        jview(r) == chat_message(role@, content@),
{
    let mut es: Vec<(String, JsonValue)> = Vec::new();
    put(&mut es, "role", jtext(role));
    put(&mut es, "content", jtext(content));
    assert(jentries(es@) =~= seq![("role"@, JsonView::Str(role@)), ("content"@, JsonView::Str(content@))]);
    JsonValue::Object(es)
}

fn body_value(rt: &CloudProviderRuntime, p: CloudAiProvider, prompt: &str) -> (r: JsonValue)
    ensures
        jview(r) == request_body(*rt, p, prompt@),
{
    match p {
        CloudAiProvider::Anthropic => {
            let mut msgs: Vec<JsonValue> = Vec::new();
            push_item(&mut msgs, message_value("user", prompt));
            let ghost mv = jviews(msgs@);
            let mut es: Vec<(String, JsonValue)> = Vec::new();
            put(&mut es, "model", JsonValue::String(rt.model.clone()));
            put(&mut es, "max_tokens", JsonValue::Number(JsonNumber::PosInt(512)));
            put(&mut es, "messages", JsonValue::Array(msgs));
            assert(mv =~= seq![chat_message("user"@, prompt@)]);
            assert(jentries(es@) =~= seq![
                ("model"@, JsonView::Str(rt.model@)),
                ("max_tokens"@, JsonView::Number(JsonNumber::PosInt(512))),
                ("messages"@, JsonView::Array(seq![chat_message("user"@, prompt@)])),
            ]);
            JsonValue::Object(es)
        },
        CloudAiProvider::Gemini => {
            let mut text: Vec<(String, JsonValue)> = Vec::new();
            put(&mut text, "text", jtext(prompt));
            let ghost tv = jentries(text@);
            let mut parts: Vec<JsonValue> = Vec::new();
            push_item(&mut parts, JsonValue::Object(text));
            let ghost pv = jviews(parts@);
            let mut content: Vec<(String, JsonValue)> = Vec::new();
            put(&mut content, "parts", JsonValue::Array(parts));
            let ghost cv = jentries(content@);
            let mut contents: Vec<JsonValue> = Vec::new();
            push_item(&mut contents, JsonValue::Object(content));
            let ghost csv = jviews(contents@);
            let mut es: Vec<(String, JsonValue)> = Vec::new();
            put(&mut es, "contents", JsonValue::Array(contents));
            proof {
                assert(tv =~= seq![("text"@, JsonView::Str(prompt@))]);
                assert(pv =~= seq![JsonView::Object(seq![("text"@, JsonView::Str(prompt@))])]);
                assert(cv =~= seq![("parts"@, JsonView::Array(seq![JsonView::Object(seq![("text"@, JsonView::Str(prompt@))])]))]);
                assert(csv =~= seq![JsonView::Object(seq![
                    ("parts"@, JsonView::Array(seq![JsonView::Object(seq![("text"@, JsonView::Str(prompt@))])])),
                ])]);
                assert(jentries(es@) =~= seq![
                    ("contents"@, JsonView::Array(seq![JsonView::Object(seq![
                        ("parts"@, JsonView::Array(seq![JsonView::Object(seq![("text"@, JsonView::Str(prompt@))])])),
                    ])])),
                ]);
            }
            JsonValue::Object(es)
        },
        _ => {
            let mut msgs: Vec<JsonValue> = Vec::new();
            push_item(&mut msgs, message_value("system", "You are Cove Mail's assistant."));
            push_item(&mut msgs, message_value("user", prompt));
            let ghost mv = jviews(msgs@);
            let mut es: Vec<(String, JsonValue)> = Vec::new();
            put(&mut es, "model", JsonValue::String(rt.model.clone()));
            put(&mut es, "messages", JsonValue::Array(msgs));
            assert(mv =~= seq![chat_message("system"@, "You are Cove Mail's assistant."@), chat_message("user"@, prompt@)]);
            assert(jentries(es@) =~= seq![
                ("model"@, JsonView::Str(rt.model@)),
                ("messages"@, JsonView::Array(seq![chat_message("system"@, "You are Cove Mail's assistant."@), chat_message("user"@, prompt@)])),
            ]);
            JsonValue::Object(es)
        },
    }
}

fn with_name(prefix: &str, p: CloudAiProvider, suffix: &str) -> (r: String)
    ensures
        r@ == prefix@ + provider_name(p) + suffix@,
{
    let mut t = chars_of(prefix);
    push_str(&mut t, provider_name_of(p));
    push_str(&mut t, suffix);
    string_from_chars(t.as_slice())
}

/// The request that asks the routed provider about `prompt`, with the API
/// key the keychain holds for it (if any); a configuration error saying
/// what is missing when there can be none.
pub fn cloud_request(config: &AiRuntimeConfig, route: &CloudRoute, api_key: Option<String>, prompt: &str) -> (r: Result<CloudRequest, AiError>)
    ensures
        match cloud_problem(config.cloud@, route.target(), opt_text(api_key)) {
            Some(m) => r matches Err(AiError::Config(e)) && e@ == m,
            None => r matches Ok(req) && ({
                let rt = provider_runtime(config.cloud@, route.target())->0;
                let key = opt_text(api_key)->0;
                &&& req.url@ == request_url(rt, route.target(), key)
                &&& auth_fits(req.auth, route.target(), key)
                &&& jview(req.body) == request_body(rt, route.target(), prompt@)
            }),
        },
{
    let provider = route.provider();
    proof {
        reveal_strlit("");
    }
    let rt = match runtime_for(&config.cloud, provider) {
        Some(rt) => rt,
        None => return Err(AiError::Config(with_name("missing provider config for ", provider, ""))),
    };
    if !rt.enabled {
        return Err(AiError::Config(with_name("provider ", provider, " is disabled")));
    }
    let key = match api_key {
        Some(k) => k,
        None => return Err(AiError::Config(with_name("missing API key for ", provider, ""))),
    };
    let endpoint = match &rt.endpoint {
        Some(e) => e,
        None => return Err(AiError::Config(with_name("missing endpoint for ", provider, ""))),
    };
    let body = body_value(rt, provider, prompt);
    match provider {
        CloudAiProvider::Anthropic => Ok(CloudRequest { url: endpoint.clone(), auth: CloudAuth::AnthropicKey(key), body }),
        CloudAiProvider::Gemini => {
            let mut u = chars_of(endpoint.as_str());
            push_str(&mut u, "/models/");
            push_str(&mut u, rt.model.as_str());
            push_str(&mut u, ":generateContent?key=");
            push_str(&mut u, key.as_str());
            Ok(CloudRequest { url: string_from_chars(u.as_slice()), auth: CloudAuth::InAddress, body })
        },
        _ => Ok(CloudRequest { url: endpoint.clone(), auth: CloudAuth::Bearer(key), body }),
    }
}

// ------------------------------------------------------------------ replies

/// A JSON pointer step `0`: the first item of an array, or the member named
/// `0` of an object.
pub open spec fn first_of(v: Option<JsonValue>) -> Option<JsonValue> {
    match v {
        Some(JsonValue::Array(items)) => if items@.len() > 0 { Some(items@[0]) } else { None },
        Some(JsonValue::Object(es)) => entries_get(es@, "0"@),
        _ => None,
    }
}

fn first_item<'a>(v: Option<&'a JsonValue>) -> (r: Option<&'a JsonValue>)
    ensures
        opt_ref(r) == first_of(opt_ref(v)),
{
    match v {
        Some(JsonValue::Array(items)) => if items.len() > 0 { Some(&items[0]) } else { None },
        Some(JsonValue::Object(es)) => crate::json::entries_lookup(es, "0"),
        _ => None,
    }
}

/// The text of a provider's reply: `/choices/0/message/content` for the
/// OpenAI-style ones, `/content/0/text` for Anthropic,
/// `/candidates/0/content/parts/0/text` for Gemini; empty when it is not
/// there.
pub open spec fn reply_text(p: CloudAiProvider, reply: JsonValue) -> Seq<char> {
    let found = match p {
        CloudAiProvider::Anthropic => jstr(jget_opt(first_of(jget(reply, "content"@)), "text"@)),
        CloudAiProvider::Gemini => jstr(jget_opt(first_of(jget_opt(jget_opt(first_of(jget(reply, "candidates"@)), "content"@), "parts"@)), "text"@)),
        _ => jstr(jget_opt(jget_opt(first_of(jget(reply, "choices"@)), "message"@), "content"@)),
    };
    match found {
        Some(t) => t,
        None => Seq::empty(),
    }
}

pub fn cloud_reply_text(provider: CloudAiProvider, reply: &JsonValue) -> (r: String)
    ensures
        r@ == reply_text(provider, *reply),
{
    let found = match provider {
        CloudAiProvider::Anthropic => crate::json::json_str(crate::json::json_get_opt(first_item(json_get(reply, "content")), "text")),
        CloudAiProvider::Gemini => crate::json::json_str(crate::json::json_get_opt(first_item(crate::json::json_get_opt(
            crate::json::json_get_opt(first_item(json_get(reply, "candidates")), "content"), "parts")), "text")),
        _ => crate::json::json_str(crate::json::json_get_opt(crate::json::json_get_opt(first_item(json_get(reply, "choices")), "message"), "content")),
    };
    match found {
        Some(t) => t.clone(),
        None => String::new(),
    }
}


// ------------------------------------------------------------------ model lists

/// `s` with every occurrence of `from` replaced by `to`, left to right, as
/// `str::replace` does.
pub open spec fn replaced(s: Seq<char>, from: Seq<char>, to: Seq<char>) -> Seq<char>
    decreases s.len(),
{
    if s.len() == 0 || from.len() == 0 {
        s
    } else if starts_with(s, from) {
        to + replaced(s.skip(from.len() as int), from, to)
    } else {
        seq![s[0]] + replaced(s.skip(1), from, to)
    }
}

fn replace_all(s: &[char], from: &str, to: &str) -> (r: Vec<char>)
    requires
        from@.len() > 0,
    ensures
        r@ == replaced(s@, from@, to@),
{
    let f = chars_of(from);
    let mut out: Vec<char> = Vec::new();
    let mut i: usize = 0;
    assert(s@.skip(0) =~= s@);
    while i < s.len()
        invariant
            i <= s.len(),
            f@ == from@,
            from@.len() > 0,
            out@ + replaced(s@.skip(i as int), from@, to@) == replaced(s@, from@, to@),
        decreases s.len() - i,
    {
        let ghost rest = s@.skip(i as int);
        if matches_at(s, f.as_slice(), i) {
            proof {
                assert(rest.subrange(0, from@.len() as int) =~= s@.subrange(i as int, i + from@.len()));
                assert(rest.skip(from@.len() as int) =~= s@.skip(i + from@.len()));
            }
            push_str(&mut out, to);
            assert(out@ + replaced(s@.skip(i + f.len()), from@, to@) =~= replaced(s@, from@, to@));
            i = i + f.len();
        } else {
            proof {
                if starts_with(rest, from@) {
                    assert(rest.subrange(0, from@.len() as int) =~= s@.subrange(i as int, i + from@.len()));
                }
                assert(rest.skip(1) =~= s@.skip(i + 1));
                assert(rest[0] == s@[i as int]);
            }
            out.push(s[i]);
            assert(out@ + replaced(s@.skip(i + 1), from@, to@) =~= replaced(s@, from@, to@));
            i = i + 1;
        }
    }
    assert(replaced(s@.skip(i as int), from@, to@) =~= Seq::<char>::empty());
    assert(out@ =~= replaced(s@, from@, to@));
    out
}

/// Where an OpenAI-style provider lists its models: its chat address with
/// `/chat/completions` (or `/messages`) made `/models`, else `/models` under
/// its address; OpenAI's list when it has no address.
pub open spec fn models_url(endpoint: Option<Seq<char>>) -> Seq<char> {
    match endpoint {
        None => "https://api.openai.com/v1/models"@,
        Some(e) => if ends_with(e, "/chat/completions"@) {
            replaced(e, "/chat/completions"@, "/models"@)
        } else if ends_with(e, "/messages"@) {
            replaced(e, "/messages"@, "/models"@)
        } else {
            strip_end(e, '/') + "/models"@
        },
    }
}

pub fn cloud_models_url(endpoint: Option<&str>) -> (r: String)
    ensures
        r@ == models_url(match endpoint {
            Some(e) => Some(e@),
            None => None,
        }),
{
    proof {
        reveal_strlit("/chat/completions");
        reveal_strlit("/messages");
    }
    match endpoint {
        None => "https://api.openai.com/v1/models".to_owned(),
        Some(e) => {
            let cs = chars_of(e);
            if has_suffix(cs.as_slice(), chars_of("/chat/completions").as_slice()) {
                string_from_chars(replace_all(cs.as_slice(), "/chat/completions", "/models").as_slice())
            } else if has_suffix(cs.as_slice(), chars_of("/messages").as_slice()) {
                string_from_chars(replace_all(cs.as_slice(), "/messages", "/models").as_slice())
            } else {
                let mut t = trim_end_char(cs.as_slice(), '/');
                push_str(&mut t, "/models");
                string_from_chars(t.as_slice())
            }
        },
    }
}

/// The texts found under `key` in the items of an array: for each item, its
/// member `key` when that is a text.
pub open spec fn member_texts(items: Seq<JsonValue>, key: Seq<char>) -> Seq<Seq<char>>
    decreases items.len(),
{
    if items.len() == 0 {
        Seq::empty()
    } else {
        match jstr(jget(items.last(), key)) {
            Some(t) => member_texts(items.drop_last(), key).push(t),
            None => member_texts(items.drop_last(), key),
        }
    }
}

/// The texts under `key` in the items of the array member `list` of a
/// reply, each with `prefix` before it.
pub open spec fn listed_texts(reply: JsonValue, list: Seq<char>, key: Seq<char>) -> Seq<Seq<char>> {
    match crate::json::jarr(jget(reply, list)) {
        Some(items) => member_texts(items, key),
        None => Seq::empty(),
    }
}

fn collect_member_texts(reply: &JsonValue, list: &str, key: &str, prefix: &str) -> (r: Vec<String>)
    ensures
        text_views(r@) == listed_texts(*reply, list@, key@).map_values(|t: Seq<char>| prefix@ + t),
{
    let mut out: Vec<String> = Vec::new();
    match crate::json::json_array(json_get(reply, list)) {
        Some(items) => {
            for i in 0..items.len()
                invariant
                    text_views(out@) == member_texts(items@.take(i as int), key@).map_values(|t: Seq<char>| prefix@ + t),
            {
                assert(items@.take(i + 1).drop_last() =~= items@.take(i as int));
                assert(items@.take(i + 1).last() == items@[i as int]);
                let ghost before = out@;
                match crate::json::json_str(json_get(&items[i], key)) {
                    Some(t) => {
                        let mut v = chars_of(prefix);
                        push_str(&mut v, t.as_str());
                        out.push(string_from_chars(v.as_slice()));
                        assert(text_views(out@) =~= text_views(before).push(prefix@ + t@));
                    },
                    None => {},
                }
            }
            assert(items@.take(items@.len() as int) =~= items@);
        },
        None => {
            assert(text_views(out@) =~= Seq::<Seq<char>>::empty());
        },
    }
    out
}

/// The models a provider's `/models` reply lists (`/data/*/id`), sorted.
pub fn cloud_model_ids(reply: &JsonValue) -> (r: Vec<String>)
    ensures
        ascending_texts(r@),
        text_views(r@).to_multiset() == listed_texts(*reply, "data"@, "id"@).to_multiset(),
{
    let found = collect_member_texts(reply, "data", "id", "");
    proof {
        reveal_strlit("");
        assert(listed_texts(*reply, "data"@, "id"@).map_values(|t: Seq<char>| ""@ + t) =~= listed_texts(*reply, "data"@, "id"@));
    }
    sort_texts(found)
}

/// The models local servers offer, each once, in order: Ollama's
/// (`/models/*/name`, as `ollama/<name>`) and LM Studio's (`/data/*/id`,
/// as `lm-studio/<id>`), from whichever replied.
pub fn local_model_names(ollama: Option<&JsonValue>, lm_studio: Option<&JsonValue>) -> (r: Vec<String>)
    ensures
        strictly_ascending(r@),
        forall|y: Seq<char>| #[trigger] has_text(r@, y) <==> (
            (ollama matches Some(o) && listed_texts(*o, "models"@, "name"@).map_values(|t: Seq<char>| "ollama/"@ + t).contains(y))
            || (lm_studio matches Some(l) && listed_texts(*l, "data"@, "id"@).map_values(|t: Seq<char>| "lm-studio/"@ + t).contains(y))),
{
    let a = match ollama {
        Some(o) => collect_member_texts(o, "models", "name", "ollama/"),
        None => Vec::new(),
    };
    let b = match lm_studio {
        Some(l) => collect_member_texts(l, "data", "id", "lm-studio/"),
        None => Vec::new(),
    };
    let mut set: Vec<String> = Vec::new();
    let ghost av = text_views(a@);
    let ghost bv = text_views(b@);
    for i in 0..a.len()
        invariant
            strictly_ascending(set@),
            av == text_views(a@),
            forall|y: Seq<char>| #[trigger] has_text(set@, y) <==> av.take(i as int).contains(y),
    {
        insert_text(&mut set, a[i].clone());
        assert forall|y: Seq<char>| #[trigger] has_text(set@, y) <==> av.take(i + 1).contains(y) by {
            assert(av.take(i + 1) =~= av.take(i as int).push(a@[i as int]@));
            if av.take(i + 1).contains(y) && y != a@[i as int]@ {
                let k = choose|k: int| 0 <= k < av.take(i + 1).len() && #[trigger] av.take(i + 1)[k] == y;
                assert(av.take(i as int)[k] == y);
            }
            if av.take(i as int).contains(y) {
                let k = choose|k: int| 0 <= k < av.take(i as int).len() && #[trigger] av.take(i as int)[k] == y;
                assert(av.take(i + 1)[k] == y);
            }
            if y == a@[i as int]@ {
                assert(av.take(i + 1)[i as int] == y);
            }
        }
    }
    assert(av.take(av.len() as int) =~= av);
    for i in 0..b.len()
        invariant
            strictly_ascending(set@),
            bv == text_views(b@),
            forall|y: Seq<char>| #[trigger] has_text(set@, y) <==> (av.contains(y) || bv.take(i as int).contains(y)),
    {
        insert_text(&mut set, b[i].clone());
        assert forall|y: Seq<char>| #[trigger] has_text(set@, y) <==> (av.contains(y) || bv.take(i + 1).contains(y)) by {
            assert(bv.take(i + 1) =~= bv.take(i as int).push(b@[i as int]@));
            if bv.take(i + 1).contains(y) && y != b@[i as int]@ {
                let k = choose|k: int| 0 <= k < bv.take(i + 1).len() && #[trigger] bv.take(i + 1)[k] == y;
                assert(bv.take(i as int)[k] == y);
            }
            if bv.take(i as int).contains(y) {
                let k = choose|k: int| 0 <= k < bv.take(i as int).len() && #[trigger] bv.take(i as int)[k] == y;
                assert(bv.take(i + 1)[k] == y);
            }
            if y == b@[i as int]@ {
                assert(bv.take(i + 1)[i as int] == y);
            }
        }
    }
    assert(bv.take(bv.len() as int) =~= bv);
    set
}

}
