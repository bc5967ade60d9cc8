//! What the bot does when members join and when users are banned or
//! unbanned in a guild it serves.

use vstd::prelude::*;
use vstd::string::*;
use crate::api::{chat_ban_request, SetChatBannedRequest, VerifiedUserResponse};
use crate::config::{Config, ServerConfig};
use crate::embed::{simple_embed, Embed, EmbedView, COLOR_WARNING};
use crate::table::lookup;
use crate::text::{decimal, write_decimal};

verus! {

/// How Discord writes a mention of a user.
pub open spec fn mention_spec(user_id: u64) -> Seq<char> {
    "<@"@ + decimal(user_id as nat) + ">"@
}

/// A mention of the user with ID `user_id`.
pub fn mention(user_id: u64) -> (s: String)
    ensures
        s@ == mention_spec(user_id),
{
    let mut s = String::from_str("<@");
    write_decimal(user_id, &mut s);
    s.append(">");
    s
}

/// A message to post in a channel.
pub struct ChannelMessage {
    pub channel_id: u64,
    pub content: String,
    pub embed: Embed,
}

/// The embed that asks a new member to verify.
pub open spec fn welcome_embed(user_id: u64, instructions: Seq<char>) -> EmbedView {
    simple_embed(
        "Verification Required"@,
        "Welcome "@ + mention_spec(user_id)
            + "! We require you to verify your BYOND account with us before you can join.\n\n"@
            + instructions,
        COLOR_WARNING,
    )
}

/// After a new member's check: nothing to post when an account was found;
/// otherwise a message in the guild's verification channel that mentions
/// the member and explains how to verify.
pub fn welcome_message(
    config: &Config,
    server: &ServerConfig,
    user_id: u64,
    check: &VerifiedUserResponse,
) -> (m: Option<ChannelMessage>)
    ensures
        m is None <==> check.ckey@.len() > 0,
        m matches Some(msg) ==> msg.channel_id == server.verification_channel && msg.content@
            == mention_spec(user_id) && msg.embed@ == welcome_embed(
            user_id,
            config.verification_instructions@,
        ),
{
    if !check.ckey.as_str().is_empty() {
        return None;
    }
    let who = mention(user_id);
    let mut d = String::from_str("Welcome ");
    d.append(who.as_str());
    d.append("! We require you to verify your BYOND account with us before you can join.\n\n");
    d.append(config.verification_instructions.as_str());
    let embed = Embed::new(String::from_str("Verification Required"), d, COLOR_WARNING);
    Some(ChannelMessage { channel_id: server.verification_channel, content: who, embed })
}

/// The chat-ban change to request when `user_id` is banned (`banned`) or
/// unbanned in the guild `guild_id`: only in configured guilds that sync
/// chat bans with Discord bans.
pub open spec fn ban_sync_wanted(config: Config, guild_id: u64) -> bool {
    lookup(config.servers.entries(), decimal(guild_id as nat)) matches Some(s)
        && s.chat_ban_on_discord_ban
}

/// The request to make after a ban (`banned`) or an unban in a guild, if any.
pub fn ban_sync_request(config: &Config, guild_id: u64, user_id: u64, banned: bool) -> (r: Option<
    SetChatBannedRequest,
>)
    ensures
        r is Some <==> ban_sync_wanted(*config, guild_id),
        r matches Some(req) ==> req.discord_id@ == decimal(user_id as nat) && req.banned == banned,
{
    match config.server_for_guild(guild_id) {
        Some(s) => {
            if s.chat_ban_on_discord_ban {
                Some(chat_ban_request(user_id, banned))
            } else {
                None
            }
        },
        None => None,
    }
}

} // verus!
