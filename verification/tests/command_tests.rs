use verify_bot::api::{DiscordUserResponse, PlayerResponse, VerifiedUserResponse};
use verify_bot::commands::{guild_gate, verify_for_reply, verify_reply, whois_reply};
use verify_bot::config::{Config, Server, ServerConfig, ServerUrl};
use verify_bot::embed::{Embed, COLOR_ERROR, COLOR_INFO, COLOR_SUCCESS, COLOR_WARNING};
use verify_bot::notes::NoteResponse;
use verify_bot::player::{
    player_after_lookup, player_answer, player_start, record_is_showable, PlayerAction,
    expiry_computable, player_embed, player_notes_renderable, player_reply, player_server_url,
    player_target_check, unknown_player_reply, unlinked_user_reply,
};
use verify_bot::table::Table;

fn config() -> Config {
    let mut server_urls = Table::new();
    server_urls.insert("pvp".to_string(), ServerUrl { url: "https://pvp.example".to_string(), default: true });
    let mut servers = Table::new();
    servers.insert("42".to_string(), ServerConfig { verification_channel: 7, chat_ban_on_discord_ban: true });
    Config {
        discord_token: "t".to_string(),
        server_urls,
        api_token: "a".to_string(),
        servers,
        verification_instructions: "Use /link in game.".to_string(),
        owner_id: 9,
    }
}

fn verified(ckey: &str) -> VerifiedUserResponse {
    VerifiedUserResponse {
        source: "pvp".to_string(),
        ckey: ckey.to_string(),
        discord_id: "5".to_string(),
        authentik_username: None,
        roles_to_add: vec![],
        roles_to_remove: vec![],
    }
}

fn fields(e: &Embed) -> Vec<(String, String, bool)> {
    e.fields.iter().map(|f| (f.name.clone(), f.value.clone(), f.inline)).collect()
}

#[test]
fn gate_outside_a_server() {
    let e = guild_gate(&config(), None).unwrap();
    assert_eq!(e.title, "Error");
    assert_eq!(e.description, "This command must be run in a server.");
    assert_eq!(e.color, COLOR_ERROR);
}

#[test]
fn gate_in_an_unknown_server() {
    let e = guild_gate(&config(), Some(43)).unwrap();
    assert_eq!(e.description, "This command is not available in this server.");
    assert!(guild_gate(&config(), Some(42)).is_none());
}

#[test]
fn verify_answers() {
    let ok = verify_reply("alice", &Ok(verified("alicekey")), "Use /link in game.");
    assert_eq!(ok.title, "Verification Successful");
    assert_eq!(ok.description, "alice has been verified.");
    assert_eq!(ok.color, COLOR_SUCCESS);
    let missing = verify_reply("bob", &Ok(verified("")), "Use /link in game.");
    assert_eq!(missing.title, "Verification Failed");
    assert_eq!(missing.description, "bob could not be verified. \n\n**How to verify:**\nUse /link in game.");
    assert_eq!(missing.color, COLOR_WARNING);
    let err = verify_reply("bob", &Err("boom".to_string()), "x");
    assert_eq!(err.title, "Error");
    assert_eq!(err.description, "Error during verification: boom");
    assert_eq!(err.color, COLOR_ERROR);
}

#[test]
fn verify_for_answers() {
    let ok = verify_for_reply("carol", &Ok(verified("carolkey")));
    assert_eq!(ok.description, "carol has been verified.");
    assert_eq!(
        fields(&ok),
        vec![("CKEY".to_string(), "carolkey".to_string(), true), ("Source".to_string(), "pvp".to_string(), true)]
    );
    let missing = verify_for_reply("dan", &Ok(verified("")));
    assert_eq!(missing.description, "dan could not be verified. No matching account found in the database.");
    assert!(missing.fields.is_empty());
}

#[test]
fn whois_answers() {
    let found = DiscordUserResponse {
        source: "pve".to_string(),
        ckey: "erin".to_string(),
        discord_id: "77".to_string(),
        authentik_username: None,
    };
    let e = whois_reply("Erin", &Ok(Some(found)));
    assert_eq!(e.title, "User Lookup");
    assert_eq!(e.description, "Information for Erin");
    assert_eq!(fields(&e).len(), 3);
    assert_eq!(fields(&e)[2], ("Discord ID".to_string(), "77".to_string(), true));
    let none = whois_reply("Frank", &Ok(None));
    assert_eq!(none.title, "User Not Found");
    assert_eq!(none.description, "Frank is not linked to any account in the database.");
    let err = whois_reply("Frank", &Err("down".to_string()));
    assert_eq!(err.description, "Error during lookup: down");
}

fn player() -> PlayerResponse {
    PlayerResponse {
        id: 1,
        ckey: Some("gina".to_string()),
        last_login: Some("yesterday".to_string()),
        is_permabanned: None,
        permaban_reason: None,
        permaban_date: None,
        permaban_admin_ckey: None,
        is_time_banned: None,
        time_ban_reason: None,
        time_ban_admin_ckey: None,
        time_ban_date: None,
        time_ban_expiration: None,
        whitelist_status: None,
        byond_account_age: None,
        first_join_date: Some("2020".to_string()),
        discord_id: Some("123".to_string()),
        notes: None,
        job_bans: None,
    }
}

#[test]
fn player_preconditions() {
    assert!(player_target_check(false, false).unwrap().description == "You must provide either a user or a ckey.");
    assert!(player_target_check(true, false).is_none());
    assert_eq!(player_server_url(&config(), Server::Pvp).ok().unwrap(), "https://pvp.example");
    let err = player_server_url(&config(), Server::Pve).err().unwrap();
    assert_eq!(err.description, "Server 'pve' is not configured.");
    assert_eq!(
        unlinked_user_reply("hal", Server::Pve).description,
        "hal is not linked to any account in the PVE database."
    );
    assert_eq!(
        unknown_player_reply("ivy", Server::Pvp).description,
        "No player with ckey 'ivy' found in the PVP database."
    );
}

#[test]
fn plain_player_summary() {
    let e = player_embed(&player(), Server::Pvp);
    assert_eq!(e.title, "Player: gina");
    assert_eq!(e.description, "Server: **PVP**");
    assert_eq!(e.color, COLOR_INFO);
    assert_eq!(
        fields(&e),
        vec![
            ("First Join".to_string(), "2020".to_string(), true),
            ("Last Login".to_string(), "yesterday".to_string(), true),
            ("Discord".to_string(), "<@123>".to_string(), true),
        ]
    );
}

#[test]
fn banned_player_summary() {
    let mut p = player();
    p.ckey = None;
    p.is_permabanned = Some(1);
    p.permaban_reason = Some("griefing".to_string());
    p.is_time_banned = Some(1);
    p.time_ban_admin_ckey = Some("boss".to_string());
    p.time_ban_expiration = Some(10);
    p.job_bans = Some(vec![]);
    p.notes = Some(vec![]);
    assert!(expiry_computable(&p));
    let e = player_embed(&p, Server::Pve);
    assert_eq!(e.title, "Player: Unknown");
    assert_eq!(e.color, COLOR_ERROR);
    let f = fields(&e);
    assert_eq!(f[3], ("PERMABANNED".to_string(), "By **adminbot** on Unknown date\ngriefing".to_string(), false));
    assert_eq!(
        f[4],
        ("TIME BANNED".to_string(), "By **boss** on Unknown date\nExpires: <t:946685400:R>\nNo reason provided".to_string(), false)
    );
    assert_eq!(f[5], ("Notes".to_string(), "0".to_string(), true));
    assert_eq!(f.len(), 6);
}

#[test]
fn time_banned_player_is_yellow() {
    let mut p = player();
    p.is_time_banned = Some(2);
    p.is_permabanned = Some(0);
    let e = player_embed(&p, Server::Pvp);
    assert_eq!(e.color, COLOR_WARNING);
    assert!(fields(&e)[3].1.contains("Expires: Unknown"));
}

#[test]
fn unrepresentable_expiry_is_detected() {
    let mut p = player();
    p.is_time_banned = Some(1);
    p.time_ban_expiration = Some(i64::MAX / 10);
    assert!(!expiry_computable(&p));
    p.is_time_banned = Some(0);
    assert!(expiry_computable(&p));
}

fn note(date: &str, text: &str) -> NoteResponse {
    NoteResponse {
        id: 0,
        player_id: 1,
        admin_id: 2,
        text: Some(text.to_string()),
        date: date.to_string(),
        is_ban: 0,
        ban_time: None,
        is_confidential: 0,
        admin_rank: "A".to_string(),
        note_category: Some(2),
        round_id: Some(5),
        noted_player_ckey: None,
        noting_admin_ckey: Some("m".to_string()),
    }
}

#[test]
fn player_reply_adds_sorted_notes() {
    let mut p = player();
    p.notes = Some(vec![note("2024", "later"), note("2023", "earlier")]);
    p.job_bans = Some(vec![]);
    assert!(player_notes_renderable(&p));
    let embeds = player_reply(p, Server::Pvp);
    assert_eq!(embeds.len(), 2);
    assert_eq!(fields(&embeds[0]).last().unwrap(), &("Notes".to_string(), "2".to_string(), true));
    assert_eq!(embeds[1].title, "Notes for gina (2 total)");
    assert_eq!(
        embeds[1].description,
        "**[MERIT]** earlier\n*by m on 2023 (Round 5)*\n\n**[MERIT]** later\n*by m on 2024 (Round 5)*"
    );
    assert_eq!(embeds[1].footer.as_deref(), Some("Server: PVP"));
    assert_eq!(player_reply(player(), Server::Pvp).len(), 1);
}

#[test]
fn player_flow_steps() {
    let c = config();
    match player_start(&c, Server::Pvp, None, None) {
        PlayerAction::Answer(e) => assert_eq!(e.description, "You must provide either a user or a ckey."),
        _ => panic!("expected an answer"),
    }
    match player_start(&c, Server::Pve, Some(3), None) {
        PlayerAction::Answer(e) => assert_eq!(e.description, "Server 'pve' is not configured."),
        _ => panic!("expected an answer"),
    }
    match player_start(&c, Server::Pvp, Some(3), Some("jack".to_string())) {
        PlayerAction::FetchPlayer { base_url, ckey } => {
            assert_eq!(base_url, "https://pvp.example");
            assert_eq!(ckey, "jack");
        }
        _ => panic!("expected a fetch"),
    }
    match player_start(&c, Server::Pvp, Some(3), None) {
        PlayerAction::LookUpUser { base_url, user_id } => {
            assert_eq!(base_url, "https://pvp.example");
            assert_eq!(user_id, 3);
        }
        _ => panic!("expected a lookup"),
    }
    match player_after_lookup("u".to_string(), "kim", Server::Pvp, None) {
        PlayerAction::Answer(e) => {
            assert_eq!(e.description, "kim is not linked to any account in the PVP database.")
        }
        _ => panic!("expected an answer"),
    }
    let linked = DiscordUserResponse {
        source: "s".to_string(),
        ckey: "kimkey".to_string(),
        discord_id: "3".to_string(),
        authentik_username: None,
    };
    match player_after_lookup("u".to_string(), "kim", Server::Pvp, Some(linked)) {
        PlayerAction::FetchPlayer { base_url, ckey } => {
            assert_eq!(base_url, "u");
            assert_eq!(ckey, "kimkey");
        }
        _ => panic!("expected a fetch"),
    }
    assert!(record_is_showable(&None));
    let none = player_answer(Server::Pve, "zed", None);
    assert_eq!(none.len(), 1);
    assert_eq!(none[0].title, "Player Not Found");
    assert_eq!(none[0].description, "No player with ckey 'zed' found in the PVE database.");
    let found = player_answer(Server::Pvp, "gina", Some(player()));
    assert_eq!(found[0].title, "Player: gina");
}
