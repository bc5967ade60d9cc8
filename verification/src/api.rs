//! The game database's web API: the records it returns, the requests the
//! bot makes, and how its answers are read.

use vstd::prelude::*;
use vstd::string::*;
use crate::embed::opt_view;
use crate::notes::NoteResponse;
use crate::text::{decimal, u64_to_decimal, write_decimal};

verus! {

/// A member's verification state, with the roles to give and take.
pub struct VerifiedUserResponse {
    pub source: String,
    pub ckey: String,
    pub discord_id: String,
    pub authentik_username: Option<String>,
    /// Role IDs that should be added to the user
    pub roles_to_add: Vec<String>,
    /// Role IDs that should be removed from the user
    pub roles_to_remove: Vec<String>,
}

/// The game account linked to a Discord user.
pub struct DiscordUserResponse {
    pub source: String,
    pub ckey: String,
    pub discord_id: String,
    pub authentik_username: Option<String>,
}

/// The body of an error answer.
pub struct ApiErrorResponse {
    pub error: String,
    pub message: String,
}

/// A job ban on a player's record.
pub struct JobBanResponse {
    pub id: i64,
    pub text: String,
    pub role: String,
    pub expiration: Option<i64>,
    pub banning_admin_ckey: Option<String>,
}

/// A player's record.
pub struct PlayerResponse {
    pub id: i64,
    pub ckey: Option<String>,
    pub last_login: Option<String>,
    pub is_permabanned: Option<i32>,
    pub permaban_reason: Option<String>,
    pub permaban_date: Option<String>,
    pub permaban_admin_ckey: Option<String>,
    pub is_time_banned: Option<i32>,
    pub time_ban_reason: Option<String>,
    pub time_ban_admin_ckey: Option<String>,
    pub time_ban_date: Option<String>,
    pub time_ban_expiration: Option<i64>,
    pub whitelist_status: Option<String>,
    pub byond_account_age: Option<String>,
    pub first_join_date: Option<String>,
    pub discord_id: Option<String>,
    pub notes: Option<Vec<NoteResponse>>,
    pub job_bans: Option<Vec<JobBanResponse>>,
}

/// The body sent to set or clear a user's chat ban.
pub struct SetChatBannedRequest {
    pub discord_id: String,
    pub banned: bool,
}

/// Address of the verification check of a member of a guild.
pub open spec fn verified_url_spec(base: Seq<char>, discord_id: u64, guild_id: u64) -> Seq<char> {
    base + "/api/Discord/Verified/"@ + decimal(discord_id as nat) + "/"@ + decimal(guild_id as nat)
}

/// Address of the account linked to a Discord user.
pub open spec fn discord_user_url_spec(base: Seq<char>, discord_id: u64) -> Seq<char> {
    base + "/api/Discord/User/"@ + decimal(discord_id as nat)
}

/// Address of a player's record.
pub open spec fn player_url_spec(base: Seq<char>, ckey: Seq<char>) -> Seq<char> {
    base + "/api/User?ckey="@ + ckey
}

/// Address of the chat-ban setting.
pub open spec fn set_chat_banned_url_spec(base: Seq<char>) -> Seq<char> {
    base + "/api/Authentik/SetChatBanned"@
}

/// The `Authorization` header value for an API token.
pub open spec fn bearer_spec(token: Seq<char>) -> Seq<char> {
    "Bearer "@ + token
}

/// The verification check address.
pub fn verified_url(base: &str, discord_id: u64, guild_id: u64) -> (u: String)
    ensures
        u@ == verified_url_spec(base@, discord_id, guild_id),
{
    let mut u = String::from_str(base);
    u.append("/api/Discord/Verified/");
    write_decimal(discord_id, &mut u);
    u.append("/");
    write_decimal(guild_id, &mut u);
    assert(u@ =~= verified_url_spec(base@, discord_id, guild_id));
    u
}

/// The linked-account address.
pub fn discord_user_url(base: &str, discord_id: u64) -> (u: String)
    ensures
        u@ == discord_user_url_spec(base@, discord_id),
{
    let mut u = String::from_str(base);
    u.append("/api/Discord/User/");
    write_decimal(discord_id, &mut u);
    assert(u@ =~= discord_user_url_spec(base@, discord_id));
    u
}

/// The player-record address.
pub fn player_url(base: &str, ckey: &str) -> (u: String)
    ensures
        u@ == player_url_spec(base@, ckey@),
{
    let mut u = String::from_str(base);
    u.append("/api/User?ckey=");
    u.append(ckey);
    u
}

/// The chat-ban address.
pub fn set_chat_banned_url(base: &str) -> (u: String)
    ensures
        u@ == set_chat_banned_url_spec(base@),
{
    let mut u = String::from_str(base);
    u.append("/api/Authentik/SetChatBanned");
    u
}

/// The `Authorization` header for `token`.
pub fn bearer(token: &str) -> (h: String)
    ensures
        h@ == bearer_spec(token@),
{
    let mut h = String::from_str("Bearer ");
    h.append(token);
    h
}

/// The body that sets (`banned`) or clears the chat ban of a user.
pub fn chat_ban_request(discord_id: u64, banned: bool) -> (r: SetChatBannedRequest)
    ensures
        r.discord_id@ == decimal(discord_id as nat),
        r.banned == banned,
{
    SetChatBannedRequest { discord_id: u64_to_decimal(discord_id), banned }
}

/// A status in 200..=299 reports success.
pub open spec fn is_success_spec(status: u16) -> bool {
    200 <= status < 300
}

/// Whether `status` reports success.
pub fn is_success(status: u16) -> (b: bool)
    ensures
        b == is_success_spec(status),
{
    200 <= status && status < 300
}

/// The status code that reports a missing record.
pub const STATUS_NOT_FOUND: u16 = 404;

/// The reason phrase that `reqwest` gives for a status code, if it has one.
pub uninterp spec fn canonical_reason_text(code: u16) -> Option<Seq<char>>;

/// Calls `reqwest::StatusCode::from_u16` and then `canonical_reason`. The
/// contract claims only that the result is the phrase the library gives for
/// this code (named by `canonical_reason_text`); which phrase that is for a
/// given code is not stated.
#[verifier::external_body]
fn canonical_reason(code: u16) -> (r: Option<String>)
    requires
        100 <= code <= 999,
    ensures
        opt_view(r) == canonical_reason_text(code),
{
    match reqwest::StatusCode::from_u16(code) {
        Ok(status) => match status.canonical_reason() {
            Some(reason) => Some(reason.to_string()),
            None => None,
        },
        Err(_) => None,
    }
}

/// How a status code is written: the number, a space, and its reason
/// phrase (or `<unknown status code>`).
pub open spec fn status_text_spec(code: u16) -> Seq<char> {
    decimal(code as nat) + " "@ + match canonical_reason_text(code) {
        Some(reason) => reason,
        None => "<unknown status code>"@,
    }
}

/// Writes a status code the way `reqwest::StatusCode` displays it.
pub fn status_text(code: u16) -> (s: String)
    requires
        100 <= code <= 999,
    ensures
        s@ == status_text_spec(code),
{
    let mut s = u64_to_decimal(code as u64);
    s.append(" ");
    match canonical_reason(code) {
        Some(reason) => s.append(reason.as_str()),
        None => s.append("<unknown status code>"),
    }
    s
}

/// The message of a failed request when the error body could not be read.
pub open spec fn status_failure_spec(code: u16) -> Seq<char> {
    "API request failed with status: "@ + status_text_spec(code)
}

/// The error of a failed verification check: the body's message, or the
/// status when there is no readable body.
pub open spec fn verify_failure_spec(body: Option<(Seq<char>, Seq<char>)>, code: u16) -> Seq<char> {
    match body {
        Some(b) => b.1,
        None => status_failure_spec(code),
    }
}

/// The error of any other failed request: `error: message` from the body,
/// or the status when there is no readable body.
pub open spec fn api_failure_spec(body: Option<(Seq<char>, Seq<char>)>, code: u16) -> Seq<char> {
    match body {
        Some(b) => b.0 + ": "@ + b.1,
        None => status_failure_spec(code),
    }
}

/// An error body as its two texts.
pub open spec fn error_body_view(body: Option<&ApiErrorResponse>) -> Option<(Seq<char>, Seq<char>)> {
    match body {
        Some(b) => Some((b.error@, b.message@)),
        None => None,
    }
}

/// The message for a failed request without a readable body.
fn status_failure(code: u16) -> (s: String)
    requires
        100 <= code <= 999,
    ensures
        s@ == status_failure_spec(code),
{
    let mut s = String::from_str("API request failed with status: ");
    let t = status_text(code);
    s.append(t.as_str());
    s
}

/// The error of a failed verification check.
pub fn verify_failure_message(body: Option<&ApiErrorResponse>, code: u16) -> (s: String)
    requires
        100 <= code <= 999,
    ensures
        s@ == verify_failure_spec(error_body_view(body), code),
        match body {
            Some(b) => s@ == b.message@,
            None => s@ == "API request failed with status: "@ + decimal(code as nat) + " "@
                + match canonical_reason_text(code) {
                Some(reason) => reason,
                None => "<unknown status code>"@,
            },
        },
{
    match body {
        Some(b) => b.message.clone(),
        None => status_failure(code),
    }
}

/// The error of any other failed request.
pub fn api_failure_message(body: Option<&ApiErrorResponse>, code: u16) -> (s: String)
    requires
        100 <= code <= 999,
    ensures
        s@ == api_failure_spec(error_body_view(body), code),
        match body {
            Some(b) => s@ == b.error@ + ": "@ + b.message@,
            None => s@ == "API request failed with status: "@ + decimal(code as nat) + " "@
                + match canonical_reason_text(code) {
                Some(reason) => reason,
                None => "<unknown status code>"@,
            },
        },
{
    match body {
        Some(b) => {
            let mut s = b.error.clone();
            s.append(": ");
            s.append(b.message.as_str());
            s
        },
        None => status_failure(code),
    }
}

/// What to do with an answer.
pub enum AnswerStep {
    /// Read the record from the body.
    ReadRecord,
    /// There is no such record.
    NoRecord,
    /// The request failed: read the error body.
    ReadError,
}

/// The step for an answer to the verification check or the chat-ban
/// setting, where a missing record is an error like any other.
pub fn strict_answer_step(status: u16) -> (s: AnswerStep)
    ensures
        s is ReadRecord <==> is_success_spec(status),
        s is ReadError <==> !is_success_spec(status),
{
    if is_success(status) {
        AnswerStep::ReadRecord
    } else {
        AnswerStep::ReadError
    }
}

/// The step for an answer to a lookup, where 404 means "no such record".
pub fn lookup_answer_step(status: u16) -> (s: AnswerStep)
    ensures
        s is ReadRecord <==> is_success_spec(status),
        s is NoRecord <==> status == STATUS_NOT_FOUND,
        s is ReadError <==> !is_success_spec(status) && status != STATUS_NOT_FOUND,
{
    if is_success(status) {
        AnswerStep::ReadRecord
    } else if status == STATUS_NOT_FOUND {
        AnswerStep::NoRecord
    } else {
        AnswerStep::ReadError
    }
}

} // verus!
