//! Domain model shared by mail, calendar, tasks, sync and AI features.
//!
//! Identifiers are 128-bit UUID values and instants are UTC seconds (see `time`).
use vstd::prelude::*;
use crate::oauth::OAuthProfile;

verus! {

#[derive(Debug, Clone, Copy, PartialEq, Eq, Structural)]
pub enum Provider {
    Gmail,
    Outlook,
    Yahoo,
    ICloud,
    FastMail,
    ProtonBridge,
    Generic,
    Exchange,
}

#[derive(Debug, Clone, Copy, PartialEq, Eq, Structural)]
pub enum OfflineSyncLimit {
    All,
    Days(u32),
}

impl Default for OfflineSyncLimit {
    fn default() -> (r: Self)
        ensures
            r == OfflineSyncLimit::Days(30),
    {
        OfflineSyncLimit::Days(30)
    }
}

#[derive(Debug, Clone, Copy, PartialEq, Eq, Structural)]
pub enum AccountProtocol {
    ImapSmtp,
    Ews,
    Jmap,
    CalDav,
    GoogleCalendar,
    MicrosoftGraph,
    GoogleTasks,
    MicrosoftTodo,
}

#[derive(Debug, Clone)]
pub struct Account {
    pub id: u128,
    pub provider: Provider,
    pub protocols: Vec<AccountProtocol>,
    pub display_name: String,
    pub email_address: String,
    pub oauth_profile: Option<OAuthProfile>,
    pub created_at: i64,
    pub updated_at: i64,
}

#[derive(Debug, Clone)]
pub struct MailFolder {
    pub account_id: u128,
    pub remote_id: String,
    pub path: String,
    pub delimiter: Option<String>,
    pub unread_count: u32,
    pub total_count: u32,
}

#[derive(Debug, Clone)]
pub struct MailAddress {
    pub name: Option<String>,
    pub address: String,
}

#[derive(Debug, Clone, Copy, PartialEq, Eq, Structural)]
pub struct MailFlags {
    pub seen: bool,
    pub answered: bool,
    pub flagged: bool,
    pub deleted: bool,
    pub draft: bool,
    pub forwarded: bool,
}

impl Default for MailFlags {
    fn default() -> (r: Self)
        ensures
            !r.seen && !r.answered && !r.flagged && !r.deleted && !r.draft && !r.forwarded,
    {
        MailFlags { seen: false, answered: false, flagged: false, deleted: false, draft: false, forwarded: false }
    }
}

#[derive(Debug, Clone)]
pub struct MailAttachment {
    pub id: u128,
    pub file_name: String,
    pub mime_type: String,
    pub size: u64,
    pub inline: bool,
}

#[derive(Debug, Clone)]
pub struct MailMessage {
    pub id: u128,
    pub account_id: u128,
    pub remote_id: String,
    pub thread_id: String,
    pub folder_path: String,
    pub from: Vec<MailAddress>,
    pub to: Vec<MailAddress>,
    pub cc: Vec<MailAddress>,
    pub bcc: Vec<MailAddress>,
    pub reply_to: Vec<MailAddress>,
    pub subject: String,
    pub preview: String,
    pub body_text: Option<String>,
    pub body_html: Option<String>,
    pub flags: MailFlags,
    pub labels: Vec<String>,
    /// Header names and values, ordered by name, each name once.
    pub headers: Vec<(String, String)>,
    pub attachments: Vec<MailAttachment>,
    pub sent_at: Option<i64>,
    pub received_at: i64,
    pub created_at: i64,
    pub updated_at: i64,
    /// The message reappears after this instant.
    pub snoozed_until: Option<i64>,
    /// Pinned messages stay at the top of a list.
    pub pinned: bool,
    /// Scheduled send instant (`None`: send immediately).
    pub send_at: Option<i64>,
}

#[derive(Debug, Clone)]
pub struct MailThreadSummary {
    pub thread_id: String,
    pub subject: String,
    pub participants: Vec<String>,
    pub message_count: usize,
    pub unread_count: usize,
    pub most_recent_at: i64,
}

#[derive(Debug, Clone)]
pub struct ContactSummary {
    pub email_address: String,
    pub display_name: Option<String>,
    pub latest_subject: String,
    pub message_count: usize,
    pub unread_count: usize,
    pub most_recent_at: i64,
}

#[derive(Debug, Clone)]
pub struct CalendarAlarm {
    pub minutes_before: i64,
    pub message: Option<String>,
}

#[derive(Debug, Clone, Copy, PartialEq, Eq, Structural)]
pub enum RsvpStatus {
    NeedsAction,
    Accepted,
    Declined,
    Tentative,
}

impl Default for RsvpStatus {
    fn default() -> (r: Self)
        ensures
            r == RsvpStatus::NeedsAction,
    {
        RsvpStatus::NeedsAction
    }
}

/// Human-readable recurrence frequencies for the recurrence editor.
#[derive(Debug, Clone, Copy, PartialEq, Eq, Structural)]
pub enum RecurrenceFrequency {
    Daily,
    Weekly,
    Monthly,
    Yearly,
}

#[derive(Debug, Clone)]
pub struct CalendarEvent {
    pub id: u128,
    pub account_id: u128,
    pub calendar_id: String,
    pub remote_id: String,
    pub title: String,
    pub description: Option<String>,
    pub location: Option<String>,
    pub timezone: Option<String>,
    pub starts_at: i64,
    pub ends_at: i64,
    pub all_day: bool,
    pub recurrence_rule: Option<String>,
    pub attendees: Vec<String>,
    pub organizer: Option<String>,
    pub alarms: Vec<CalendarAlarm>,
    pub rsvp_status: RsvpStatus,
    pub updated_at: i64,
}

#[derive(Debug, Clone, Copy, PartialEq, Eq, Structural)]
pub enum TaskPriority {
    Low,
    Normal,
    High,
    Critical,
}

#[derive(Debug, Clone, Copy, PartialEq, Eq, Structural)]
pub enum TaskStatus {
    NotStarted,
    InProgress,
    Completed,
    Canceled,
}

#[derive(Debug, Clone)]
pub struct ReminderTask {
    pub id: u128,
    pub account_id: u128,
    pub list_id: String,
    pub remote_id: Option<String>,
    pub title: String,
    pub notes: Option<String>,
    pub due_at: Option<i64>,
    pub completed_at: Option<i64>,
    pub priority: TaskPriority,
    pub status: TaskStatus,
    pub repeat_rule: Option<String>,
    pub parent_id: Option<u128>,
    pub snoozed_until: Option<i64>,
    pub created_at: i64,
    pub updated_at: i64,
}

#[derive(Debug, Clone)]
pub struct EmailSignature {
    pub id: u128,
    pub account_id: Option<u128>,
    pub name: String,
    pub body_html: String,
    pub body_text: String,
    pub is_default: bool,
}

#[derive(Debug, Clone)]
pub struct EmailTemplate {
    pub id: u128,
    pub name: String,
    pub subject: String,
    pub body_html: String,
    pub body_text: String,
}

#[derive(Debug, Clone, Copy, PartialEq, Eq, Structural)]
pub enum RuleField {
    From,
    To,
    Subject,
    Body,
    HasAttachment,
}

#[derive(Debug, Clone, Copy, PartialEq, Eq, Structural)]
pub enum RuleOperator {
    Contains,
    NotContains,
    Equals,
    StartsWith,
    EndsWith,
    Matches,
}

#[derive(Debug, Clone)]
pub struct RuleCondition {
    pub field: RuleField,
    pub operator: RuleOperator,
    pub value: String,
}

#[derive(Debug, Clone)]
pub enum RuleAction {
    MoveTo(String),
    Label(String),
    MarkRead,
    Archive,
    Delete,
    Pin,
    Flag,
}

#[derive(Debug, Clone)]
pub struct MailRule {
    pub id: u128,
    pub account_id: Option<u128>,
    pub name: String,
    pub enabled: bool,
    pub conditions: Vec<RuleCondition>,
    pub match_all: bool,
    pub actions: Vec<RuleAction>,
    pub stop_processing: bool,
    pub order: i32,
}

#[derive(Debug, Clone)]
pub struct Contact {
    pub id: u128,
    pub account_id: Option<u128>,
    pub email: String,
    pub display_name: Option<String>,
    pub phone: Option<String>,
    pub organization: Option<String>,
    pub notes: Option<String>,
    pub last_contacted: Option<i64>,
    pub contact_count: u32,
}

#[derive(Debug, Clone, Copy, PartialEq, Eq, Structural)]
pub enum SyncDomain {
    Email,
    Calendar,
    Tasks,
}

#[derive(Debug, Clone, Copy, PartialEq, Eq, Structural)]
pub enum SyncStatus {
    Queued,
    Running,
    Failed,
    Completed,
}

/// A queued unit of synchronisation work; the payload is kept as JSON text.
#[derive(Debug, Clone)]
pub struct SyncJob {
    pub id: u128,
    pub account_id: u128,
    pub domain: SyncDomain,
    pub status: SyncStatus,
    pub payload_json: String,
    pub attempt_count: u32,
    pub max_attempts: u32,
    pub run_after: i64,
    pub last_error: Option<String>,
    pub created_at: i64,
    pub updated_at: i64,
}

#[derive(Debug, Clone, Copy, PartialEq, Eq, Structural)]
pub enum AiMode {
    Local,
    Cloud,
}

#[derive(Debug, Clone, Copy, PartialEq, Eq, Structural, Hash)]
pub enum CloudAiProvider {
    OpenAi,
    Anthropic,
    Gemini,
    Mistral,
    Groq,
    Grok,
    OpenRouter,
}

#[derive(Debug, Clone)]
pub struct DataProvenance {
    pub feature: String,
    pub mode: AiMode,
    pub destination: String,
    pub reason: String,
}

#[derive(Debug, Clone)]
pub struct SearchResult<T> {
    pub total: usize,
    pub items: Vec<T>,
}

#[derive(Debug, Clone, Copy, PartialEq, Eq, Structural)]
pub struct Pagination {
    pub limit: usize,
    pub offset: usize,
}

impl Default for Pagination {
    fn default() -> (r: Self)
        ensures
            r.limit == 50 && r.offset == 0,
    {
        Pagination { limit: 50, offset: 0 }
    }
}

}
