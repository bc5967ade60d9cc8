//! What the bot's slash commands answer, decided from the configuration
//! and from what the game database returned.

use vstd::prelude::*;
use vstd::string::*;
use crate::api::{DiscordUserResponse, VerifiedUserResponse};
use crate::config::Config;
use crate::embed::{simple_embed, Embed, EmbedView, COLOR_ERROR, COLOR_SUCCESS, COLOR_WARNING};
use crate::table::has_key;
use crate::text::decimal;

verus! {

/// The answer when a command is used outside a server.
pub open spec fn not_in_server_embed() -> EmbedView {
    simple_embed("Error"@, "This command must be run in a server."@, COLOR_ERROR)
}

/// The answer when a command is used in a server the bot does not serve.
pub open spec fn unknown_server_embed() -> EmbedView {
    simple_embed("Error"@, "This command is not available in this server."@, COLOR_ERROR)
}

/// Whether a command may run in the guild it was used in; if not, the
/// error to answer with.
pub fn guild_gate(config: &Config, guild_id: Option<u64>) -> (r: Option<Embed>)
    ensures
        guild_id is None ==> (r matches Some(e) && e@ == not_in_server_embed()),
        guild_id matches Some(g) ==> (r is None <==> has_key(
            config.servers.entries(),
            decimal(g as nat),
        )),
        guild_id is Some && r is Some ==> (r matches Some(e) && e@ == unknown_server_embed()),
{
    match guild_id {
        None => Some(
            Embed::new(
                String::from_str("Error"),
                String::from_str("This command must be run in a server."),
                COLOR_ERROR,
            ),
        ),
        Some(g) => {
            if config.is_configured_guild(g) {
                None
            } else {
                Some(
                    Embed::new(
                        String::from_str("Error"),
                        String::from_str("This command is not available in this server."),
                        COLOR_ERROR,
                    ),
                )
            }
        },
    }
}

/// The answer to a failed request, `prefix` followed by the error.
pub open spec fn request_error_embed(prefix: Seq<char>, error: Seq<char>) -> EmbedView {
    simple_embed("Error"@, prefix + error, COLOR_ERROR)
}

/// The answer to `/verify` for the member called `name`.
pub open spec fn verify_reply_spec(
    name: Seq<char>,
    ckey: Result<Seq<char>, Seq<char>>,
    instructions: Seq<char>,
) -> EmbedView {
    match ckey {
        Ok(c) => if c.len() > 0 {
            simple_embed(
                "Verification Successful"@,
                name + " has been verified."@,
                COLOR_SUCCESS,
            )
        } else {
            simple_embed(
                "Verification Failed"@,
                name + " could not be verified. \n\n**How to verify:**\n"@ + instructions,
                COLOR_WARNING,
            )
        },
        Err(e) => request_error_embed("Error during verification: "@, e),
    }
}

/// The ckey of a verification answer, or the error text.
pub open spec fn verified_ckey(result: Result<VerifiedUserResponse, String>) -> Result<
    Seq<char>,
    Seq<char>,
> {
    match result {
        Ok(u) => Ok(u.ckey@),
        Err(e) => Err(e@),
    }
}

/// The error answer with `prefix` in front of `error`.
fn error_embed(prefix: &str, error: &str) -> (e: Embed)
    ensures
        e@ == request_error_embed(prefix@, error@),
{
    let mut d = String::from_str(prefix);
    d.append(error);
    Embed::new(String::from_str("Error"), d, COLOR_ERROR)
}

/// The answer to `/verify`, once the member's roles have been updated.
pub fn verify_reply(
    name: &str,
    result: &Result<VerifiedUserResponse, String>,
    instructions: &str,
) -> (e: Embed)
    ensures
        e@ == verify_reply_spec(name@, verified_ckey(*result), instructions@),
        match *result {
            Ok(u) => if u.ckey@.len() > 0 {
                e@.title == "Verification Successful"@ && e@.color == COLOR_SUCCESS
                    && e@.description == name@ + " has been verified."@
            } else {
                e@.title == "Verification Failed"@ && e@.color == COLOR_WARNING
                    && e@.description == name@ + " could not be verified. \n\n**How to verify:**\n"@
                    + instructions@
            },
            Err(err) => e@.title == "Error"@ && e@.color == COLOR_ERROR && e@.description
                == "Error during verification: "@ + err@,
        },
        e@.fields.len() == 0,
{
    match result {
        Ok(u) => {
            if !u.ckey.as_str().is_empty() {
                let mut d = String::from_str(name);
                d.append(" has been verified.");
                Embed::new(String::from_str("Verification Successful"), d, COLOR_SUCCESS)
            } else {
                let mut d = String::from_str(name);
                d.append(" could not be verified. \n\n**How to verify:**\n");
                d.append(instructions);
                Embed::new(String::from_str("Verification Failed"), d, COLOR_WARNING)
            }
        },
        Err(err) => error_embed("Error during verification: ", err.as_str()),
    }
}


/// The answer to `/verify_for` about the member called `name`.
pub open spec fn verify_for_reply_spec(
    name: Seq<char>,
    result: Result<(Seq<char>, Seq<char>), Seq<char>>,
) -> EmbedView {
    match result {
        Ok(found) => if found.0.len() > 0 {
            EmbedView {
                fields: seq![("CKEY"@, found.0, true), ("Source"@, found.1, true)],
                ..simple_embed("Verification Successful"@, name + " has been verified."@, COLOR_SUCCESS)
            }
        } else {
            simple_embed(
                "Verification Failed"@,
                name + " could not be verified. No matching account found in the database."@,
                COLOR_WARNING,
            )
        },
        Err(e) => request_error_embed("Error during verification: "@, e),
    }
}

/// The ckey and source of a verification answer, or the error text.
pub open spec fn verified_account(result: Result<VerifiedUserResponse, String>) -> Result<
    (Seq<char>, Seq<char>),
    Seq<char>,
> {
    match result {
        Ok(u) => Ok((u.ckey@, u.source@)),
        Err(e) => Err(e@),
    }
}

/// The answer to `/verify_for`, once the member's roles have been updated.
pub fn verify_for_reply(name: &str, result: &Result<VerifiedUserResponse, String>) -> (e: Embed)
    ensures
        e@ == verify_for_reply_spec(name@, verified_account(*result)),
        match *result {
            Ok(u) => if u.ckey@.len() > 0 {
                e@.fields == seq![("CKEY"@, u.ckey@, true), ("Source"@, u.source@, true)]
            } else {
                e@.fields.len() == 0
            },
            Err(_) => e@.fields.len() == 0,
        },
{
    match result {
        Ok(u) => {
            if !u.ckey.as_str().is_empty() {
                let mut d = String::from_str(name);
                d.append(" has been verified.");
                let mut e = Embed::new(String::from_str("Verification Successful"), d, COLOR_SUCCESS);
                e.add_field(String::from_str("CKEY"), u.ckey.clone(), true);
                e.add_field(String::from_str("Source"), u.source.clone(), true);
                assert(e@.fields =~= seq![("CKEY"@, u.ckey@, true), ("Source"@, u.source@, true)]);
                e
            } else {
                let mut d = String::from_str(name);
                d.append(" could not be verified. No matching account found in the database.");
                Embed::new(String::from_str("Verification Failed"), d, COLOR_WARNING)
            }
        },
        Err(err) => error_embed("Error during verification: ", err.as_str()),
    }
}

/// The answer to `/whois` about the user called `name`.
pub open spec fn whois_reply_spec(
    name: Seq<char>,
    result: Result<Option<(Seq<char>, Seq<char>, Seq<char>)>, Seq<char>>,
) -> EmbedView {
    match result {
        Ok(Some(found)) => EmbedView {
            fields: seq![
                ("CKEY"@, found.0, true),
                ("Source"@, found.1, true),
                ("Discord ID"@, found.2, true),
            ],
            ..simple_embed("User Lookup"@, "Information for "@ + name, COLOR_SUCCESS)
        },
        Ok(None) => simple_embed(
            "User Not Found"@,
            name + " is not linked to any account in the database."@,
            COLOR_WARNING,
        ),
        Err(e) => request_error_embed("Error during lookup: "@, e),
    }
}

/// The linked account of a lookup answer, or the error text.
pub open spec fn linked_account(result: Result<Option<DiscordUserResponse>, String>) -> Result<
    Option<(Seq<char>, Seq<char>, Seq<char>)>,
    Seq<char>,
> {
    match result {
        Ok(Some(u)) => Ok(Some((u.ckey@, u.source@, u.discord_id@))),
        Ok(None) => Ok(None),
        Err(e) => Err(e@),
    }
}

/// The answer to `/whois`.
pub fn whois_reply(name: &str, result: &Result<Option<DiscordUserResponse>, String>) -> (e: Embed)
    ensures
        e@ == whois_reply_spec(name@, linked_account(*result)),
        match *result {
            Ok(Some(u)) => e@.fields == seq![
                ("CKEY"@, u.ckey@, true),
                ("Source"@, u.source@, true),
                ("Discord ID"@, u.discord_id@, true),
            ],
            _ => e@.fields.len() == 0,
        },
{
    match result {
        Ok(Some(u)) => {
            let mut d = String::from_str("Information for ");
            d.append(name);
            let mut e = Embed::new(String::from_str("User Lookup"), d, COLOR_SUCCESS);
            e.add_field(String::from_str("CKEY"), u.ckey.clone(), true);
            e.add_field(String::from_str("Source"), u.source.clone(), true);
            e.add_field(String::from_str("Discord ID"), u.discord_id.clone(), true);
            assert(e@.fields =~= seq![
                ("CKEY"@, u.ckey@, true),
                ("Source"@, u.source@, true),
                ("Discord ID"@, u.discord_id@, true),
            ]);
            e
        },
        Ok(None) => {
            let mut d = String::from_str(name);
            d.append(" is not linked to any account in the database.");
            Embed::new(String::from_str("User Not Found"), d, COLOR_WARNING)
        },
        Err(err) => error_embed("Error during lookup: ", err.as_str()),
    }
}


/// The field called `name` in `fields` has `value`.
pub open spec fn has_field(fields: Seq<crate::embed::FieldView>, name: Seq<char>, value: Seq<char>) -> bool {
    exists|i: int| 0 <= i < fields.len() && #[trigger] fields[i] == (name, value, true)
}

/// A `/whois` answer about a found account shows the account's ckey under
/// "CKEY", its source under "Source" and its Discord ID under "Discord ID",
/// in that order and nothing else; a missing account or a failed lookup
/// shows no fields.
pub proof fn law_whois_shows_the_account(name: Seq<char>, u: DiscordUserResponse)
    ensures
        whois_reply_spec(name, linked_account(Ok(Some(u)))).fields == seq![
            ("CKEY"@, u.ckey@, true),
            ("Source"@, u.source@, true),
            ("Discord ID"@, u.discord_id@, true),
        ],
        has_field(whois_reply_spec(name, linked_account(Ok(Some(u)))).fields, "CKEY"@, u.ckey@),
        has_field(whois_reply_spec(name, linked_account(Ok(Some(u)))).fields, "Source"@, u.source@),
        whois_reply_spec(name, linked_account(Ok(None))).fields.len() == 0,
{
    let f = whois_reply_spec(name, linked_account(Ok(Some(u)))).fields;
    assert(f[0] == ("CKEY"@, u.ckey@, true));
    assert(f[1] == ("Source"@, u.source@, true));
}

/// A `/verify_for` answer about a member with an account shows the ckey
/// under "CKEY" and the source under "Source"; without an account it shows
/// no fields.
pub proof fn law_verify_for_shows_the_account(name: Seq<char>, u: VerifiedUserResponse)
    ensures
        u.ckey@.len() > 0 ==> verify_for_reply_spec(name, verified_account(Ok(u))).fields == seq![
            ("CKEY"@, u.ckey@, true),
            ("Source"@, u.source@, true),
        ],
        u.ckey@.len() > 0 ==> has_field(
            verify_for_reply_spec(name, verified_account(Ok(u))).fields,
            "CKEY"@,
            u.ckey@,
        ) && has_field(
            verify_for_reply_spec(name, verified_account(Ok(u))).fields,
            "Source"@,
            u.source@,
        ),
        u.ckey@.len() == 0 ==> verify_for_reply_spec(name, verified_account(Ok(u))).fields.len()
            == 0,
{
    if u.ckey@.len() > 0 {
        let f = verify_for_reply_spec(name, verified_account(Ok(u))).fields;
        assert(f[0] == ("CKEY"@, u.ckey@, true));
        assert(f[1] == ("Source"@, u.source@, true));
    }
}

} // verus!
