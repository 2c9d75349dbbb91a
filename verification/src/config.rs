//! The application's settings and where its files live.
use vstd::prelude::*;
use crate::model::{AiMode, CloudAiProvider, SyncDomain};

verus! {

#[derive(Debug, Clone)]
pub struct AppConfig {
    pub version: u32,
    pub profile_name: String,
    pub privacy: PrivacyConfig,
    pub database: DatabaseConfig,
    pub sync: SyncConfig,
    pub ai: AiConfig,
    pub ui: UiConfig,
    pub notifications: NotificationConfig,
}

#[derive(Debug, Clone, Copy, PartialEq, Eq, Structural)]
pub struct PrivacyConfig {
    pub telemetry_enabled: bool,
    pub analytics_enabled: bool,
    pub block_untrusted_remote_content: bool,
    pub default_ai_mode: AiMode,
}

#[derive(Debug, Clone)]
pub struct DatabaseConfig {
    pub file_name: String,
    pub sqlcipher_enabled: bool,
}

#[derive(Debug, Clone, Copy, PartialEq, Eq, Structural)]
pub struct SyncConfig {
    pub email_poll_interval_secs: u64,
    pub calendar_poll_interval_secs: u64,
    pub task_poll_interval_secs: u64,
    pub max_parallel_jobs: usize,
}

#[derive(Debug, Clone)]
pub struct AiConfig {
    pub local: LocalAiConfig,
    pub cloud: CloudAiConfig,
}

#[derive(Debug, Clone)]
pub struct LocalAiConfig {
    pub enabled: bool,
    pub llama_cpp_binary: Option<String>,
    pub model_path: Option<String>,
    pub context_tokens: usize,
    pub gpu_layers: u32,
}

/// Cloud AI settings; `providers` maps a provider's key to its settings, one
/// entry per key.
#[derive(Debug, Clone)]
pub struct CloudAiConfig {
    pub enabled: bool,
    pub per_feature_opt_in: bool,
    pub feature_opt_in: Vec<String>,
    pub default_provider: Option<CloudAiProvider>,
    pub providers: Vec<(String, CloudProviderConfig)>,
}

#[derive(Debug, Clone)]
pub struct CloudProviderConfig {
    pub enabled: bool,
    pub model: String,
    pub api_base: Option<String>,
}

#[derive(Debug, Clone)]
pub struct UiConfig {
    pub compact_density: bool,
    pub default_start_page: String,
    pub timezone: Option<String>,
}

#[derive(Debug, Clone)]
pub struct NotificationConfig {
    pub new_mail_enabled: bool,
    pub new_mail_sound: bool,
    pub reminder_enabled: bool,
    pub reminder_minutes_before: Vec<i64>,
    pub quiet_hours_enabled: bool,
    pub quiet_hours_start: String,
    pub quiet_hours_end: String,
}

impl Default for NotificationConfig {
    fn default() -> (r: Self)
        ensures
            r.new_mail_enabled,
            !r.new_mail_sound,
            r.reminder_enabled,
            r.reminder_minutes_before@ == seq![15i64, 5i64],
            !r.quiet_hours_enabled,
            r.quiet_hours_start@ == "22:00"@,
            r.quiet_hours_end@ == "08:00"@,
    {
        NotificationConfig {
            new_mail_enabled: true,
            new_mail_sound: false,
            reminder_enabled: true,
            reminder_minutes_before: vec![15, 5],
            quiet_hours_enabled: false,
            quiet_hours_start: "22:00".to_owned(),
            quiet_hours_end: "08:00".to_owned(),
        }
    }
}

/// The keys of the cloud providers that the default settings list, each with
/// its default model (none is named for the Anthropic entry), all switched off.
pub open spec fn default_provider_models() -> Seq<(Seq<char>, Seq<char>)> {
    seq![
        ("anthropic"@, ""@),
        ("gemini"@, "gemini-1.5-pro"@),
        ("grok"@, "grok-beta"@),
        ("groq"@, "llama-3.3-70b-versatile"@),
        ("mistral"@, "mistral-large-latest"@),
        ("openai"@, "gpt-4o-mini"@),
        ("openrouter"@, "openrouter/auto"@),
    ]
}

fn provider_entry(key: &str, model: &str) -> (r: (String, CloudProviderConfig))
    ensures
        r.0@ == key@,
        !r.1.enabled,
        r.1.model@ == model@,
        r.1.api_base.is_none(),
{
    (key.to_owned(), CloudProviderConfig { enabled: false, model: model.to_owned(), api_base: None })
}

impl Default for AppConfig {
    fn default() -> (r: Self)
        ensures
            r.version == 1,
            r.profile_name@ == "default"@,
            r.privacy == (PrivacyConfig {
                telemetry_enabled: false,
                analytics_enabled: false,
                block_untrusted_remote_content: true,
                default_ai_mode: AiMode::Local,
            }),
            r.database.file_name@ == "covemail.sqlite3"@,
            !r.database.sqlcipher_enabled,
            r.sync == (SyncConfig {
                email_poll_interval_secs: 120,
                calendar_poll_interval_secs: 300,
                task_poll_interval_secs: 300,
                max_parallel_jobs: 4,
            }),
            r.ai.local.enabled,
            r.ai.local.llama_cpp_binary.is_none(),
            r.ai.local.model_path.is_none(),
            r.ai.local.context_tokens == 4096,
            r.ai.local.gpu_layers == 32,
            !r.ai.cloud.enabled,
            r.ai.cloud.per_feature_opt_in,
            r.ai.cloud.feature_opt_in@.len() == 0,
            r.ai.cloud.default_provider.is_none(),
            r.ai.cloud.providers@.len() == default_provider_models().len(),
            forall|i: int| 0 <= i < default_provider_models().len() ==> {
                &&& (#[trigger] r.ai.cloud.providers@[i]).0@ == default_provider_models()[i].0
                &&& r.ai.cloud.providers@[i].1.model@ == default_provider_models()[i].1
                &&& !r.ai.cloud.providers@[i].1.enabled
                &&& r.ai.cloud.providers@[i].1.api_base.is_none()
            },
            !r.ui.compact_density,
            r.ui.default_start_page@ == "inbox"@,
            r.ui.timezone.is_none(),
            r.notifications.new_mail_enabled,
            !r.notifications.new_mail_sound,
            r.notifications.reminder_enabled,
            r.notifications.reminder_minutes_before@ == seq![15i64, 5i64],
            !r.notifications.quiet_hours_enabled,
            r.notifications.quiet_hours_start@ == "22:00"@,
            r.notifications.quiet_hours_end@ == "08:00"@,
    {
        let mut providers: Vec<(String, CloudProviderConfig)> = Vec::new();
        providers.push(provider_entry("anthropic", ""));
        providers.push(provider_entry("gemini", "gemini-1.5-pro"));
        providers.push(provider_entry("grok", "grok-beta"));
        providers.push(provider_entry("groq", "llama-3.3-70b-versatile"));
        providers.push(provider_entry("mistral", "mistral-large-latest"));
        providers.push(provider_entry("openai", "gpt-4o-mini"));
        providers.push(provider_entry("openrouter", "openrouter/auto"));
        AppConfig {
            version: 1,
            profile_name: "default".to_owned(),
            privacy: PrivacyConfig {
                telemetry_enabled: false,
                analytics_enabled: false,
                block_untrusted_remote_content: true,
                default_ai_mode: AiMode::Local,
            },
            database: DatabaseConfig { file_name: "covemail.sqlite3".to_owned(), sqlcipher_enabled: false },
            sync: SyncConfig {
                email_poll_interval_secs: 120,
                calendar_poll_interval_secs: 300,
                task_poll_interval_secs: 300,
                max_parallel_jobs: 4,
            },
            ai: AiConfig {
                local: LocalAiConfig {
                    enabled: true,
                    llama_cpp_binary: None,
                    model_path: None,
                    context_tokens: 4096,
                    gpu_layers: 32,
                },
                cloud: CloudAiConfig {
                    enabled: false,
                    per_feature_opt_in: true,
                    feature_opt_in: Vec::new(),
                    default_provider: None,
                    providers,
                },
            },
            ui: UiConfig { compact_density: false, default_start_page: "inbox".to_owned(), timezone: None },
            notifications: NotificationConfig::default(),
        }
    }
}

/// The polling interval of a sync domain.
pub open spec fn interval_of(sync: SyncConfig, domain: SyncDomain) -> u64 {
    match domain {
        SyncDomain::Email => sync.email_poll_interval_secs,
        SyncDomain::Calendar => sync.calendar_poll_interval_secs,
        SyncDomain::Tasks => sync.task_poll_interval_secs,
    }
}

pub fn interval_secs_for_domain(config: &AppConfig, domain: &SyncDomain) -> (r: u64)
    ensures
        r == interval_of(config.sync, *domain),
{
    match domain {
        SyncDomain::Email => config.sync.email_poll_interval_secs,
        SyncDomain::Calendar => config.sync.calendar_poll_interval_secs,
        SyncDomain::Tasks => config.sync.task_poll_interval_secs,
    }
}

/// Where the settings file, the data and the caches live.
#[derive(Debug, Clone)]
pub struct ConfigManager {
    config_path: String,
    data_dir: String,
    cache_dir: String,
}

impl ConfigManager {
    pub closed spec fn config_file(&self) -> Seq<char> {
        self.config_path@
    }

    pub closed spec fn data_directory(&self) -> Seq<char> {
        self.data_dir@
    }

    pub closed spec fn cache_directory(&self) -> Seq<char> {
        self.cache_dir@
    }

    /// A manager over directories that already exist.
    pub fn from_paths(config_path: String, data_dir: String, cache_dir: String) -> (r: ConfigManager)
        ensures
            r.config_file() == config_path@,
            r.data_directory() == data_dir@,
            r.cache_directory() == cache_dir@,
    {
        ConfigManager { config_path, data_dir, cache_dir }
    }

    pub fn config_path(&self) -> (r: &str)
        ensures
            r@ == self.config_file(),
    {
        self.config_path.as_str()
    }

    pub fn data_dir(&self) -> (r: &str)
        ensures
            r@ == self.data_directory(),
    {
        self.data_dir.as_str()
    }

    pub fn cache_dir(&self) -> (r: &str)
        ensures
            r@ == self.cache_directory(),
    {
        self.cache_dir.as_str()
    }
}

}
