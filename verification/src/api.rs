//! Typed model of the Slack Web API surface the bot talks to: endpoints,
//! request parameters, response payloads, and the error and warning codes of
//! the response envelope.
//!
//! The HTTP transport lives in the accompanying application; the core only
//! reads and builds these plain values. Instants are carried as the library's
//! own `DateTime`.

use vstd::prelude::*;
use crate::datetime::DateTime;

verus! {

#[derive(Clone, Copy, Debug, PartialEq, Eq, Structural)]
pub enum HttpVerb {
    GET,
    POST,
}

/// An endpoint of the Slack Web API: its URL path and HTTP method, and the
/// request and response payloads it exchanges.
pub trait SlackEndpoint {
    type Request;

    type Response;

    fn endpoint_url(&self) -> &'static str;

    fn method(&self) -> HttpVerb;
}

/// Error codes of the Slack response envelope.
#[derive(Clone, Copy, Debug, PartialEq, Eq, Structural)]
#[allow(non_camel_case_types)]
#[non_exhaustive]
pub enum SlackApiError {
    invalid_user_id,
    invalid_channel,
    channel_not_found,
    users_not_found,
    not_authed,
    invalid_auth,
    method_not_supported_for_channel_type,
    missing_scope,
    account_inactive,
    token_revoked,
    no_permission,
    org_login_required,
    ekm_access_denied,
    enterprise_is_restricted,
    invalid_limit,
    not_allowed_token_type,
    invalid_cursor,
    fetch_members_failed,
    method_deprecated,
    unknown_method,
    deprecated_endpoint,
    two_factor_setup_required,
    is_bot,
    invalid_arguments,
    invalid_arg_name,
    invalid_array_arg,
    invalid_charset,
    invalid_form_data,
    invalid_post_type,
    missing_post_type,
    team_added_to_org,
    ratelimited,
    accesslimited,
    request_timeout,
    service_unavailable,
    fatal_error,
    internal_error,
    method_not_found,
}

/// Warning codes of the Slack response envelope.
#[derive(Clone, Copy, Debug, PartialEq, Eq, Structural)]
#[allow(non_camel_case_types)]
#[non_exhaustive]
pub enum SlackApiWarning {
    missing_charset,
    already_in_channel,
    message_truncated,
    superfluous_charset,
}

#[derive(Clone, Copy, Debug, PartialEq, Eq, Structural)]
pub struct SlackApiErrorResponse {
    pub error: SlackApiError,
}

/// The generic Slack response envelope: a success payload or an error code,
/// with optional warning and metadata.
#[derive(Debug)]
pub struct SlackApiResponse<T> {
    pub ok: bool,
    pub content: SlackApiContent<T>,
    pub warning: Option<SlackApiWarning>,
    pub response_metadata: Option<ResponseMetadata>,
}

#[derive(Debug)]
pub enum SlackApiContent<T> {
    Success(T),
    Failure(SlackApiErrorResponse),
}

impl<T> SlackApiResponse<T> {
    /// Mimicks Rust's `Result::unwrap`; the caller must know the response
    /// succeeded.
    pub fn unwrap(self) -> (r: T)
        requires
            self.content is Success,
        ensures
            r == self.content->Success_0,
    {
        match self.content {
            SlackApiContent::Success(value) => value,
            SlackApiContent::Failure(_) => unreached(),
        }
    }
}

#[derive(Debug, Clone)]
pub struct ResponseMetadata {
    pub next_cursor: Option<String>,
    pub warnings: Option<Vec<SlackApiWarning>>,
}

// Schedule message

#[derive(Debug)]
pub struct ScheduleMessageEndpoint;

impl SlackEndpoint for ScheduleMessageEndpoint {
    type Request = ScheduleMessageRequest;

    type Response = ScheduleMessageResponseRaw;

    fn endpoint_url(&self) -> &'static str {
        "chat.scheduleMessage"
    }

    fn method(&self) -> HttpVerb {
        HttpVerb::POST
    }
}

#[derive(Debug, Clone)]
pub struct ScheduleMessageRequest {
    pub channel: String,
    pub post_at: i64,
    pub text: String,
}

impl ScheduleMessageRequest {
    pub fn new(channel: &str, post_at: i64, text: String) -> (r: Self)
        ensures
            r.channel@ == channel@,
            r.post_at == post_at,
            r.text == text,
    {
        ScheduleMessageRequest { channel: channel.to_owned(), post_at, text }
    }
}

/// The schedule-message payload as the wire carries it: the post-at instant
/// is epoch seconds.
#[derive(Debug)]
pub struct ScheduleMessageResponseRaw {
    pub channel: String,
    pub scheduled_message_id: String,
    pub post_at: i64,
    pub message: MessageResponse,
}

#[derive(Debug, Clone)]
pub struct MessageResponse {
    pub text: String,
    pub user: String,
    pub team: Option<String>,
    pub bot_id: Option<String>,
    pub type_: String,
    pub bot_profile: Option<BotProfile>,
    pub attachements: Option<Vec<Attachments>>,
}

#[derive(Debug, Clone)]
pub struct BotProfile {
    pub id: String,
    pub deleted: bool,
    pub name: String,
    pub updated: i64,
    pub app_id: String,
    pub icons: Icons,
    pub team_id: String,
}

#[derive(Debug, Clone)]
pub struct Icons {
    pub image_36: Option<String>,
    pub image_48: String,
    pub image_72: String,
}

#[derive(Debug, Clone)]
pub struct Attachments {
    pub text: String,
    pub id: String,
    pub fallback: String,
}

/// The schedule-message payload with the post-at instant in local time.
pub struct ScheduleMessageResponse {
    pub channel: String,
    pub scheduled_message_id: String,
    pub post_at: DateTime,
    pub message: MessageResponse,
}

// User lookup by email

#[derive(Debug)]
pub struct UserLookupByEmailEndpoint;

impl SlackEndpoint for UserLookupByEmailEndpoint {
    type Request = UserLookupRequest;

    type Response = UserLookupResponse;

    fn endpoint_url(&self) -> &'static str {
        "users.lookupByEmail"
    }

    fn method(&self) -> HttpVerb {
        HttpVerb::GET
    }
}

#[derive(Debug, Clone)]
pub struct UserLookupRequest {
    pub email: String,
}

#[derive(Debug, Clone)]
pub struct UserObject {
    pub id: String,
    pub team_id: String,
    pub name: String,
    pub deleted: bool,
    pub color: String,
    pub real_name: String,
    pub tz: String,
    pub tz_label: String,
    pub tz_offset: i64,
    pub profile: UserProfile,
    pub is_admin: bool,
    pub is_owner: bool,
    pub is_primary_owner: bool,
    pub is_restricted: bool,
    pub is_ultra_restricted: bool,
    pub is_bot: bool,
    pub is_stranger: Option<bool>,
    pub updated: u64,
    pub is_app_user: bool,
    pub is_invited_user: Option<bool>,
    pub has_2fa: Option<bool>,
    pub locale: Option<String>,
}

#[derive(Debug, Clone)]
pub struct UserProfile {
    pub title: Option<String>,
    pub phone: Option<String>,
    pub skype: Option<String>,
    pub real_name: Option<String>,
    pub real_name_normalized: Option<String>,
    pub display_name: Option<String>,
    pub display_name_normalized: Option<String>,
    pub fields: Option<Vec<String>>,
    pub status_text: Option<String>,
    pub status_emoji: Option<String>,
    pub status_expiration: Option<u64>,
    pub avatar_hash: Option<String>,
    pub first_name: Option<String>,
    pub last_name: Option<String>,
    pub image_original: Option<String>,
    pub image_24: String,
    pub image_32: String,
    pub image_48: String,
    pub image_72: String,
    pub image_192: String,
    pub image_512: String,
    pub status_text_canonical: Option<String>,
    pub team: Option<String>,
}

#[derive(Debug, Clone)]
pub struct Team {
    pub id: String,
    pub name: Option<String>,
}

#[derive(Debug, Clone)]
pub struct UserLookupResponse {
    pub user: UserObject,
    pub team: Option<Team>,
}

/// The display name proposed for a looked-up user: the profile's display
/// name when present, else the account name.
pub fn display_name_of(display_name: &Option<String>, name: &String) -> (r: String)
    ensures
        r@ == match display_name {
            Some(d) => d@,
            None => name@,
        },
{
    match display_name {
        Some(d) => d.clone(),
        None => name.clone(),
    }
}

// Channel members

#[derive(Debug)]
pub struct ListMembersEndpoint;

impl SlackEndpoint for ListMembersEndpoint {
    type Request = ListMembersRequestParams;

    type Response = ListMembersResponse;

    fn endpoint_url(&self) -> &'static str {
        "conversations.members"
    }

    fn method(&self) -> HttpVerb {
        HttpVerb::GET
    }
}

#[derive(Debug, Clone)]
pub struct ListMembersRequestParams {
    pub channel: String,
    pub cursor: Option<String>,
}

#[derive(Debug, Clone)]
pub struct ListMembersResponse {
    pub members: Vec<String>,
}

// Scheduled messages list

#[derive(Debug)]
pub struct ListScheduledMessagesEndpoint;

impl SlackEndpoint for ListScheduledMessagesEndpoint {
    type Request = ScheduledMessagesListRequest;

    type Response = ScheduledMessagesListRaw;

    fn endpoint_url(&self) -> &'static str {
        "chat.scheduledMessages.list"
    }

    fn method(&self) -> HttpVerb {
        HttpVerb::POST
    }
}

#[derive(Debug, Clone)]
pub struct ScheduledMessagesListRequest {
    pub channel: Option<String>,
    pub cursor: Option<String>,
}

impl Default for ScheduledMessagesListRequest {
    fn default() -> (r: Self)
        ensures
            r.channel is None,
            r.cursor is None,
    {
        ScheduledMessagesListRequest { channel: None, cursor: None }
    }
}

#[derive(Debug, Clone)]
pub struct ScheduledMessagesListRaw {
    pub scheduled_messages: Vec<ScheduledMessageObjectRaw>,
}

/// A scheduled message as the wire carries it: instants are epoch seconds.
#[derive(Debug, Clone)]
pub struct ScheduledMessageObjectRaw {
    pub channel_id: String,
    pub date_created: i64,
    pub id: String,
    pub post_at: i64,
    pub text: String,
}

/// A scheduled message with its instants in local time.
#[derive(Debug, Clone)]
pub struct ScheduledMessageObject {
    pub id: String,
    pub channel_id: String,
    pub post_at: DateTime,
    pub date_created: DateTime,
    pub text: String,
}

impl ScheduledMessageObject {
    /// The calendar day the message will post on, as a day index.
    pub fn date(&self) -> (d: i64)
        ensures
            d == self.post_at.day,
    {
        self.post_at.day
    }
}

// Join conversation

#[derive(Debug)]
pub struct JoinConversationEndpoint;

impl SlackEndpoint for JoinConversationEndpoint {
    type Request = JoinConversationRequest;

    type Response = JoinConversationResponse;

    fn endpoint_url(&self) -> &'static str {
        "conversations.join"
    }

    fn method(&self) -> HttpVerb {
        HttpVerb::POST
    }
}

#[derive(Debug, Clone)]
pub struct JoinConversationRequest {
    pub channel: String,
}

#[derive(Debug, Clone)]
pub struct JoinConversationResponse {
    pub channel: ChannelObject,
}

#[derive(Debug, Clone)]
pub struct Warnings {
    pub warnings: Vec<String>,
}

#[derive(Debug, Clone)]
pub struct ChannelObject {
    pub id: String,
    pub name: String,
    pub is_channel: bool,
    pub is_group: bool,
    pub is_im: bool,
    pub created: i64,
    pub creator: String,
    pub is_archived: bool,
    pub is_general: bool,
    pub unlinked: i64,
    pub name_normalized: String,
    pub is_shared: bool,
    pub is_ext_shared: bool,
    pub is_org_shared: bool,
    pub pending_shared: Vec<String>,
    pub is_pending_ext_shared: bool,
    pub is_member: bool,
    pub is_private: bool,
    pub is_mpim: bool,
    pub topic: ChannelTopic,
    pub purpose: ChannelPurpose,
    pub previous_names: Vec<String>,
}

#[derive(Debug, Clone)]
pub struct ChannelTopic {
    pub value: String,
    pub creator: String,
    pub last_set: i64,
}

#[derive(Debug, Clone)]
pub struct ChannelPurpose {
    pub value: String,
    pub creator: String,
    pub last_set: i64,
}

// Delete scheduled message

#[derive(Debug)]
pub struct DeleteScheduledMessageEndpoint;

impl SlackEndpoint for DeleteScheduledMessageEndpoint {
    type Request = DeleteScheduledMessageRequest;

    type Response = Empty;

    fn endpoint_url(&self) -> &'static str {
        "chat.deleteScheduledMessage"
    }

    fn method(&self) -> HttpVerb {
        HttpVerb::POST
    }
}

#[derive(Debug, Clone)]
pub struct DeleteScheduledMessageRequest {
    pub channel: String,
    pub scheduled_message_id: String,
}

impl DeleteScheduledMessageRequest {
    pub fn new(channel: &str, id: &str) -> (r: DeleteScheduledMessageRequest)
        ensures
            r.channel@ == channel@,
            r.scheduled_message_id@ == id@,
    {
        DeleteScheduledMessageRequest {
            channel: channel.to_owned(),
            scheduled_message_id: id.to_owned(),
        }
    }
}

#[derive(Debug, Clone)]
pub struct Empty {}

// Identity check

#[derive(Debug)]
pub struct AuthTestEndpoint;

impl SlackEndpoint for AuthTestEndpoint {
    type Request = Empty;

    type Response = BotIdentity;

    fn endpoint_url(&self) -> &'static str {
        "auth.test"
    }

    fn method(&self) -> HttpVerb {
        HttpVerb::GET
    }
}

#[derive(Debug, Clone)]
pub struct BotIdentity {
    pub url: String,
    pub team: String,
    pub user: String,
    pub team_id: String,
    pub user_id: String,
    pub bot_id: String,
}

} // verus!
