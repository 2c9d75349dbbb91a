//! The requests and replies of the desktop shell's commands, and the
//! decisions its commands make about accounts, providers and settings.
use vstd::prelude::*;
use crate::json::{JsonNumber, JsonValue, jget, jget_opt, jobj, jstr, opt_ref};
use crate::model::{AccountProtocol, AiMode, CloudAiProvider, DataProvenance, Provider, ReminderTask};
use crate::text::{chars_of, eq_ignore_ascii_case, eq_ignore_case, trim, trimmed};

verus! {

#[derive(Debug, Clone)]
pub struct SearchPayload {
    pub query: String,
    pub limit: Option<usize>,
}

#[derive(Debug, Clone)]
pub struct AiPromptPayload {
    pub subject: String,
    pub body: String,
    pub mode: AiMode,
    pub cloud_provider: Option<CloudAiProvider>,
}

#[derive(Debug, Clone)]
pub struct AiActionPayload {
    pub body: String,
    pub mode: AiMode,
    pub cloud_provider: Option<CloudAiProvider>,
}

#[derive(Debug, Clone)]
pub struct AiResult {
    pub output: String,
    pub provenance: DataProvenance,
}

#[derive(Debug, Clone)]
pub struct AiTaskExtractionResult {
    pub created: Vec<ReminderTask>,
    pub provenance: DataProvenance,
}

#[derive(Debug, Clone)]
pub struct SetSecretPayload {
    pub namespace: String,
    pub id: String,
    pub value: String,
}

#[derive(Debug, Clone)]
pub struct BeginOAuthPayload {
    pub provider: Provider,
    pub email_address: String,
    pub display_name: Option<String>,
    pub client_id: String,
    pub redirect_url: String,
}

#[derive(Debug, Clone)]
pub struct ValidateLocalAiRuntimePayload {
    pub llama_cpp_binary: Option<String>,
    pub model_path: Option<String>,
}

#[derive(Debug, Clone)]
pub struct ValidateLocalAiRuntimeResponse {
    pub valid: bool,
    pub errors: Vec<String>,
}

// ------------------------------------------------------------------ providers

pub open spec fn provider_protocols(p: Provider) -> Seq<AccountProtocol> {
    match p {
        Provider::Gmail => seq![AccountProtocol::ImapSmtp, AccountProtocol::GoogleCalendar, AccountProtocol::GoogleTasks],
        Provider::Outlook | Provider::Exchange => seq![AccountProtocol::ImapSmtp, AccountProtocol::MicrosoftGraph, AccountProtocol::MicrosoftTodo],
        _ => seq![AccountProtocol::ImapSmtp],
    }
}

/// The protocols a new account of a provider uses: IMAP and SMTP for mail,
/// with Google's or Microsoft's calendar and task services where the
/// provider has them.
pub fn protocols_for_provider(provider: &Provider) -> (r: Vec<AccountProtocol>)
    ensures
        r@ == provider_protocols(*provider),
{
    let mut v: Vec<AccountProtocol> = Vec::new();
    v.push(AccountProtocol::ImapSmtp);
    match provider {
        Provider::Gmail => {
            v.push(AccountProtocol::GoogleCalendar);
            v.push(AccountProtocol::GoogleTasks);
        },
        Provider::Outlook | Provider::Exchange => {
            v.push(AccountProtocol::MicrosoftGraph);
            v.push(AccountProtocol::MicrosoftTodo);
        },
        _ => {},
    }
    assert(v@ =~= provider_protocols(*provider));
    v
}

/// The calendar and task service that holds a provider's accounts.
#[derive(Debug, Clone, Copy, PartialEq, Eq, Structural)]
pub enum ServiceBackend {
    Google,
    Microsoft,
    CalDav,
}

pub open spec fn service_backend(p: Provider) -> ServiceBackend {
    match p {
        Provider::Gmail => ServiceBackend::Google,
        Provider::Outlook | Provider::Exchange => ServiceBackend::Microsoft,
        _ => ServiceBackend::CalDav,
    }
}

/// Google's services for Gmail accounts, Microsoft's for Outlook and
/// Exchange, CalDAV for the rest.
pub fn service_backend_for(provider: &Provider) -> (r: ServiceBackend)
    ensures
        r == service_backend(*provider),
{
    match provider {
        Provider::Gmail => ServiceBackend::Google,
        Provider::Outlook | Provider::Exchange => ServiceBackend::Microsoft,
        Provider::ICloud | Provider::FastMail | Provider::Yahoo | Provider::Generic | Provider::ProtonBridge => ServiceBackend::CalDav,
    }
}

/// The key under which a cloud provider's settings and API key are kept:
/// its name in lower case.
pub open spec fn provider_key(p: CloudAiProvider) -> Seq<char> {
    match p {
        CloudAiProvider::OpenAi => "openai"@,
        CloudAiProvider::Anthropic => "anthropic"@,
        CloudAiProvider::Gemini => "gemini"@,
        CloudAiProvider::Mistral => "mistral"@,
        CloudAiProvider::Groq => "groq"@,
        CloudAiProvider::Grok => "grok"@,
        CloudAiProvider::OpenRouter => "openrouter"@,
    }
}

pub fn cloud_provider_key(provider: CloudAiProvider) -> (r: &'static str)
    ensures
        r@ == provider_key(provider),
{
    match provider {
        CloudAiProvider::OpenAi => "openai",
        CloudAiProvider::Anthropic => "anthropic",
        CloudAiProvider::Gemini => "gemini",
        CloudAiProvider::Mistral => "mistral",
        CloudAiProvider::Groq => "groq",
        CloudAiProvider::Grok => "grok",
        CloudAiProvider::OpenRouter => "openrouter",
    }
}

// ------------------------------------------------------------------ local AI runtime

/// What a path names on disk.
#[derive(Debug, Clone, Copy, PartialEq, Eq, Structural)]
pub enum PathKind {
    Missing,
    File,
    Other,
}

/// The problem with the llama.cpp binary setting, given what its trimmed
/// path names on disk.
pub open spec fn binary_problem(path: Option<Seq<char>>, kind: PathKind) -> Option<Seq<char>> {
    match path {
        None => Some("llama.cpp binary path is required"@),
        Some(p) => if trim(p).len() == 0 {
            Some("llama.cpp binary path is empty"@)
        } else if kind == PathKind::Missing {
            Some("llama.cpp binary path does not exist"@)
        } else if kind == PathKind::Other {
            Some("llama.cpp binary path is not a file"@)
        } else {
            None
        },
    }
}

/// The problem with the model file setting, given what its trimmed path
/// names on disk and the extension that path has: it must be a `.gguf`
/// file.
pub open spec fn model_problem(path: Option<Seq<char>>, kind: PathKind, extension: Option<Seq<char>>) -> Option<Seq<char>> {
    match path {
        None => Some("GGUF model path is required"@),
        Some(p) => if trim(p).len() == 0 {
            Some("GGUF model path is empty"@)
        } else if kind == PathKind::Missing {
            Some("GGUF model path does not exist"@)
        } else if kind == PathKind::Other {
            Some("GGUF model path is not a file"@)
        } else if !(extension matches Some(e) && eq_ignore_case(e, "gguf"@)) {
            Some("model file must use .gguf extension"@)
        } else {
            None
        },
    }
}

pub open spec fn problems(a: Option<Seq<char>>, b: Option<Seq<char>>) -> Seq<Seq<char>> {
    (match a { Some(m) => seq![m], None => Seq::empty() }) + (match b { Some(m) => seq![m], None => Seq::empty() })
}

fn push_problem(out: &mut Vec<String>, msg: &str)
    ensures
        final(out)@.map_values(|s: String| s@) == old(out)@.map_values(|s: String| s@).push(msg@),
{
    out.push(msg.to_owned());
    assert(final(out)@.map_values(|s: String| s@) =~= old(out)@.map_values(|s: String| s@).push(msg@));
}

/// The local AI settings checked against what their paths name on disk
/// (`binary_kind` and `model_kind`) and the model path's extension
/// (`model_extension`, as `Path::extension` gives it on the machine), each
/// found by the caller for the trimmed paths: valid when no problem is
/// found.
pub fn validate_local_ai_runtime(
    payload: &ValidateLocalAiRuntimePayload,
    binary_kind: PathKind,
    model_kind: PathKind,
    model_extension: Option<&str>,
) -> (r: ValidateLocalAiRuntimeResponse)
    ensures
        r.errors@.map_values(|s: String| s@) == problems(
            binary_problem(crate::mail::opt_text(payload.llama_cpp_binary), binary_kind),
            model_problem(crate::mail::opt_text(payload.model_path), model_kind, match model_extension {
                Some(e) => Some(e@),
                None => None,
            }),
        ),
        r.valid == (r.errors@.len() == 0),
{
    let mut errors: Vec<String> = Vec::new();
    match &payload.llama_cpp_binary {
        None => push_problem(&mut errors, "llama.cpp binary path is required"),
        Some(p) => {
            let c = chars_of(p.as_str());
            let t = trimmed(c.as_slice());
            if t.len() == 0 {
                push_problem(&mut errors, "llama.cpp binary path is empty");
            } else if binary_kind == PathKind::Missing {
                push_problem(&mut errors, "llama.cpp binary path does not exist");
            } else if binary_kind == PathKind::Other {
                push_problem(&mut errors, "llama.cpp binary path is not a file");
            }
        },
    }
    let ghost first = errors@.map_values(|s: String| s@);
    assert(first =~= problems(binary_problem(crate::mail::opt_text(payload.llama_cpp_binary), binary_kind), None));
    match &payload.model_path {
        None => push_problem(&mut errors, "GGUF model path is required"),
        Some(p) => {
            let c = chars_of(p.as_str());
            let t = trimmed(c.as_slice());
            if t.len() == 0 {
                push_problem(&mut errors, "GGUF model path is empty");
            } else if model_kind == PathKind::Missing {
                push_problem(&mut errors, "GGUF model path does not exist");
            } else if model_kind == PathKind::Other {
                push_problem(&mut errors, "GGUF model path is not a file");
            } else {
                let ok = match model_extension {
                    Some(e) => {
                        let ec = chars_of(e);
                        let g = chars_of("gguf");
                        eq_ignore_ascii_case(ec.as_slice(), g.as_slice())
                    },
                    None => false,
                };
                if !ok {
                    push_problem(&mut errors, "model file must use .gguf extension");
                }
            }
        },
    }
    assert(errors@.map_values(|s: String| s@) =~= problems(
        binary_problem(crate::mail::opt_text(payload.llama_cpp_binary), binary_kind),
        model_problem(crate::mail::opt_text(payload.model_path), model_kind, match model_extension {
            Some(e) => Some(e@),
            None => None,
        }),
    ));
    let valid = errors.len() == 0;
    ValidateLocalAiRuntimeResponse { valid, errors }
}

}
