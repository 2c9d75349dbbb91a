use cove_mail::ai::{
    action_items, classify_email, ensure_cloud_allowed, importance_score, natural_language_search_to_query, AiError,
    CloudProviderRuntime,
};
use cove_mail::ai_cloud::{
    action_items_prompt, ai_runtime_from_config, answer_source_of, cloud_model_ids, cloud_models_url,
    cloud_reply_text, cloud_request, cloud_route, data_provenance, draft_reply_prompt, local_command,
    local_model_names, provider_name_of, summarize_email_prompt, summarize_thread_prompt, AiRuntimeConfig,
    CloudAuth, CloudRoute, LocalRuntime,
};
use cove_mail::config::{AppConfig, CloudProviderConfig};
use cove_mail::json::{JsonNumber, JsonValue};
use cove_mail::model::{AiMode, CloudAiProvider};
use cove_mail::texts::{insert_text, sort_texts, text_set};

fn s(t: &str) -> JsonValue {
    JsonValue::String(t.to_string())
}

fn arr(items: Vec<JsonValue>) -> JsonValue {
    JsonValue::Array(items)
}

fn obj(entries: Vec<(&str, JsonValue)>) -> JsonValue {
    JsonValue::Object(entries.into_iter().map(|(k, v)| (k.to_string(), v)).collect())
}

fn write(v: &JsonValue, out: &mut String) {
    match v {
        JsonValue::Null => out.push_str("null"),
        JsonValue::Bool(b) => out.push_str(if *b { "true" } else { "false" }),
        JsonValue::Number(JsonNumber::PosInt(n)) => out.push_str(&n.to_string()),
        JsonValue::Number(JsonNumber::NegInt(n)) => out.push_str(&n.to_string()),
        JsonValue::Number(JsonNumber::Other(t)) => out.push_str(t),
        JsonValue::String(t) => {
            out.push('"');
            out.push_str(t);
            out.push('"');
        }
        JsonValue::Array(items) => {
            out.push('[');
            for (i, item) in items.iter().enumerate() {
                if i > 0 {
                    out.push(',');
                }
                write(item, out);
            }
            out.push(']');
        }
        JsonValue::Object(es) => {
            out.push('{');
            for (i, (k, item)) in es.iter().enumerate() {
                if i > 0 {
                    out.push(',');
                }
                out.push('"');
                out.push_str(k);
                out.push_str("\":");
                write(item, out);
            }
            out.push('}');
        }
    }
}

fn text(v: &JsonValue) -> String {
    let mut out = String::new();
    write(v, &mut out);
    out
}

fn runtime(enabled_provider: Option<CloudAiProvider>) -> AiRuntimeConfig {
    let mut c = AiRuntimeConfig::default();
    c.cloud_enabled = true;
    c.cloud_feature_opt_in = vec!["summarize".to_string()];
    for (p, rt) in c.cloud.iter_mut() {
        if Some(*p) == enabled_provider {
            rt.enabled = true;
        }
    }
    c
}

#[test]
fn importance_counts_words() {
    assert_eq!(importance_score("URGENT invoice", "please review"), 75);
    assert_eq!(importance_score("hello", "there"), 0);
    assert_eq!(importance_score("urgent asap deadline", "invoice security production"), 100);
}

#[test]
fn classification_labels() {
    assert_eq!(classify_email("Invoice due", "meeting at 3, action needed"), vec!["finance", "calendar", "action-required"]);
    assert_eq!(classify_email("Hi", "just saying hello"), vec!["general"]);
}

#[test]
fn search_queries_from_words() {
    assert_eq!(
        natural_language_search_to_query("Emails from ann@example.com last week about the budget"),
        "from:ann@example.com AND received:last_7_days AND budget"
    );
    assert_eq!(natural_language_search_to_query("Holiday PHOTOS"), "holiday photos");
}

#[test]
fn action_items_from_lines() {
    assert_eq!(action_items("- call Ann\n\n  -- send deck \nreview"), vec!["call Ann", "send deck", "review"]);
    assert!(action_items("   \n").is_empty());
}

#[test]
fn cloud_needs_opt_in() {
    let opted = vec!["summarize".to_string()];
    assert_eq!(ensure_cloud_allowed(true, &opted, "summarize"), Ok(()));
    assert_eq!(
        ensure_cloud_allowed(false, &opted, "summarize"),
        Err(AiError::CloudOptInRequired("cloud AI is globally disabled".to_string()))
    );
    assert_eq!(
        ensure_cloud_allowed(true, &opted, "draft"),
        Err(AiError::CloudOptInRequired("feature `draft` is not opted in for cloud".to_string()))
    );
}

#[test]
fn routes_and_provenance() {
    let c = runtime(None);
    assert_eq!(cloud_route(&c, "summarize", Some(CloudAiProvider::Groq)).map(|r| r.provider()), Ok(CloudAiProvider::Groq));
    assert_eq!(
        cloud_route(&c, "summarize", None).map(|r| r.provider()),
        Err(AiError::Config("cloud provider is required".to_string()))
    );
    assert_eq!(
        cloud_route(&c, "draft", Some(CloudAiProvider::Groq)).map(|r| r.provider()),
        Err(AiError::CloudOptInRequired("feature `draft` is not opted in for cloud".to_string()))
    );
    let p = data_provenance("summarize", AiMode::Cloud, CloudAiProvider::Mistral);
    assert_eq!(p.destination, "Mistral API");
    assert_eq!(p.reason, "User opted in for cloud inference");
    let l = data_provenance("summarize", AiMode::Local, CloudAiProvider::Mistral);
    assert_eq!(l.destination, "local_device");
    assert_eq!(answer_source_of(AiMode::Local, CloudAiProvider::Grok), "llama.cpp");
    assert_eq!(answer_source_of(AiMode::Cloud, CloudAiProvider::Grok), "Grok");
    assert_eq!(provider_name_of(CloudAiProvider::OpenRouter), "OpenRouter");
}

#[test]
fn local_command_needs_paths() {
    let mut l = LocalRuntime { enabled: false, llama_cpp_binary: None, model_path: None, max_tokens: 512 };
    assert_eq!(local_command(&l), Err(AiError::Config("local AI is disabled".to_string())));
    l.enabled = true;
    assert_eq!(local_command(&l), Err(AiError::Config("llama.cpp binary path is missing".to_string())));
    l.llama_cpp_binary = Some("/bin/llama".to_string());
    assert_eq!(local_command(&l), Err(AiError::Config("GGUF model path is missing".to_string())));
    l.model_path = Some("/m.gguf".to_string());
    assert_eq!(local_command(&l), Ok(("/bin/llama".to_string(), "/m.gguf".to_string())));
}

fn route(c: &AiRuntimeConfig, p: CloudAiProvider) -> CloudRoute {
    cloud_route(c, "summarize", Some(p)).expect("route")
}

#[test]
fn cloud_requests_per_provider() {
    let c = runtime(Some(CloudAiProvider::OpenAi));
    let r = cloud_request(&c, &route(&c, CloudAiProvider::OpenAi), Some("k1".to_string()), "hi").expect("request");
    assert_eq!(r.url, "https://api.openai.com/v1/chat/completions");
    assert_eq!(r.auth, CloudAuth::Bearer("k1".to_string()));
    assert_eq!(
        text(&r.body),
        "{\"model\":\"gpt-4o-mini\",\"messages\":[{\"role\":\"system\",\"content\":\"You are Cove Mail's assistant.\"},{\"role\":\"user\",\"content\":\"hi\"}]}"
    );
    let g = runtime(Some(CloudAiProvider::Gemini));
    let r = cloud_request(&g, &route(&g, CloudAiProvider::Gemini), Some("k2".to_string()), "hi").expect("request");
    assert_eq!(r.url, "https://generativelanguage.googleapis.com/v1beta/models/gemini-1.5-pro:generateContent?key=k2");
    assert_eq!(r.auth, CloudAuth::InAddress);
    assert_eq!(text(&r.body), "{\"contents\":[{\"parts\":[{\"text\":\"hi\"}]}]}");
    let a = runtime(Some(CloudAiProvider::Anthropic));
    let r = cloud_request(&a, &route(&a, CloudAiProvider::Anthropic), Some("k3".to_string()), "hi").expect("request");
    assert_eq!(r.auth, CloudAuth::AnthropicKey("k3".to_string()));
    assert!(text(&r.body).contains("\"max_tokens\":512"));
}

#[test]
fn cloud_request_errors() {
    let c = runtime(Some(CloudAiProvider::OpenAi));
    assert_eq!(
        cloud_request(&c, &route(&c, CloudAiProvider::Groq), Some("k".to_string()), "hi").err(),
        Some(AiError::Config("provider Groq is disabled".to_string()))
    );
    assert_eq!(
        cloud_request(&c, &route(&c, CloudAiProvider::OpenAi), None, "hi").err(),
        Some(AiError::Config("missing API key for OpenAi".to_string()))
    );
    let mut empty = c.clone();
    empty.cloud.clear();
    assert_eq!(
        cloud_request(&empty, &route(&empty, CloudAiProvider::OpenAi), Some("k".to_string()), "hi").err(),
        Some(AiError::Config("missing provider config for OpenAi".to_string()))
    );
    let mut no_endpoint = c.clone();
    no_endpoint.cloud[0].1 = CloudProviderRuntime { enabled: true, model: "m".to_string(), endpoint: None };
    assert_eq!(
        cloud_request(&no_endpoint, &route(&no_endpoint, CloudAiProvider::OpenAi), Some("k".to_string()), "hi").err(),
        Some(AiError::Config("missing endpoint for OpenAi".to_string()))
    );
}

#[test]
fn reply_texts_per_provider() {
    let openai = obj(vec![("choices", arr(vec![obj(vec![("message", obj(vec![("content", s("answer"))]))])]))]);
    assert_eq!(cloud_reply_text(CloudAiProvider::OpenAi, &openai), "answer");
    let anthropic = obj(vec![("content", arr(vec![obj(vec![("text", s("model says"))])]))]);
    assert_eq!(cloud_reply_text(CloudAiProvider::Anthropic, &anthropic), "model says");
    let gemini = obj(vec![(
        "candidates",
        arr(vec![obj(vec![("content", obj(vec![("parts", arr(vec![obj(vec![("text", s("g"))])]))]))])]),
    )]);
    assert_eq!(cloud_reply_text(CloudAiProvider::Gemini, &gemini), "g");
    assert_eq!(cloud_reply_text(CloudAiProvider::Gemini, &openai), "");
}

#[test]
fn model_list_addresses() {
    assert_eq!(cloud_models_url(None), "https://api.openai.com/v1/models");
    assert_eq!(cloud_models_url(Some("https://api.groq.com/openai/v1/chat/completions")), "https://api.groq.com/openai/v1/models");
    assert_eq!(cloud_models_url(Some("https://api.anthropic.com/v1/messages")), "https://api.anthropic.com/v1/models");
    assert_eq!(cloud_models_url(Some("https://x.example/v1//")), "https://x.example/v1/models");
}

#[test]
fn model_lists_are_sorted() {
    let reply = obj(vec![("data", arr(vec![obj(vec![("id", s("b"))]), obj(vec![("id", s("a"))]), obj(vec![("x", s("c"))])]))]);
    assert_eq!(cloud_model_ids(&reply), vec!["a".to_string(), "b".to_string()]);
    let ollama = obj(vec![("models", arr(vec![obj(vec![("name", s("llama3"))]), obj(vec![("name", s("llama3"))])]))]);
    let lm = obj(vec![("data", arr(vec![obj(vec![("id", s("qwen"))])]))]);
    assert_eq!(
        local_model_names(Some(&ollama), Some(&lm)),
        vec!["lm-studio/qwen".to_string(), "ollama/llama3".to_string()]
    );
    assert!(local_model_names(None, None).is_empty());
}

#[test]
fn prompts_carry_the_mail() {
    assert_eq!(
        summarize_email_prompt("Lunch", "At noon"),
        "Summarize this email in 4 bullet points. Subject: Lunch\nBody:\nAt noon"
    );
    let t = summarize_thread_prompt(&vec![("ann".to_string(), "Lunch".to_string(), "At noon".to_string())]);
    assert!(t.contains("Message 1: From: ann, Subject: Lunch\nAt noon\n\n"));
    assert!(draft_reply_prompt("ann", "Lunch", "At noon").contains("Lunch"));
    assert!(action_items_prompt("Do X").contains("Do X"));
}

#[test]
fn runtime_from_settings() {
    let mut config = AppConfig::default();
    config.ai.local.enabled = true;
    config.ai.local.context_tokens = 2048;
    config.ai.cloud.enabled = true;
    config.ai.cloud.feature_opt_in = vec!["summarize".to_string(), "draft".to_string(), "summarize".to_string()];
    config.ai.cloud.providers = vec![(
        "openai".to_string(),
        CloudProviderConfig { enabled: true, model: "gpt-x".to_string(), api_base: None },
    )];
    let r = ai_runtime_from_config(&config);
    assert!(r.local.enabled);
    assert_eq!(r.local.max_tokens, 2048);
    assert!(r.cloud_enabled);
    assert_eq!(r.cloud_feature_opt_in, vec!["draft".to_string(), "summarize".to_string()]);
    assert_eq!(r.cloud.len(), 1);
    assert_eq!(r.cloud[0].0, CloudAiProvider::OpenAi);
    assert_eq!(r.cloud[0].1.model, "gpt-x");
}

#[test]
fn text_sets_and_sorting() {
    let mut set = vec!["b".to_string()];
    insert_text(&mut set, "a".to_string());
    insert_text(&mut set, "c".to_string());
    insert_text(&mut set, "b".to_string());
    assert_eq!(set, vec!["a", "b", "c"]);
    assert_eq!(text_set(&vec!["z".to_string(), "y".to_string(), "z".to_string()]), vec!["y", "z"]);
    assert_eq!(sort_texts(vec!["z".to_string(), "y".to_string(), "z".to_string()]), vec!["y", "z", "z"]);
}
