use verify_bot::api::VerifiedUserResponse;
use verify_bot::bulk::{
    ban_sync_complete, ban_sync_outcome, ban_sync_progress, ban_sync_report_due, ban_sync_started,
    member_outcome, verify_complete, verify_progress, verify_started, BanSyncOutcome,
    BanSyncTally, MemberOutcome, VerifyTally,
};
use verify_bot::config::{Config, ServerConfig, ServerUrl};
use verify_bot::embed::{COLOR_SUCCESS, COLOR_WARNING};
use verify_bot::events::{ban_sync_request, mention, welcome_message};
use verify_bot::roles::plan_role_changes;
use verify_bot::table::Table;

fn config() -> Config {
    let mut server_urls = Table::new();
    server_urls.insert("pvp".to_string(), ServerUrl { url: "u".to_string(), default: true });
    let mut servers = Table::new();
    servers.insert("100".to_string(), ServerConfig { verification_channel: 555, chat_ban_on_discord_ban: true });
    servers.insert("200".to_string(), ServerConfig { verification_channel: 666, chat_ban_on_discord_ban: false });
    Config {
        discord_token: "t".to_string(),
        server_urls,
        api_token: "a".to_string(),
        servers,
        verification_instructions: "Steps.".to_string(),
        owner_id: 1,
    }
}

fn check(ckey: &str, add: &[&str], remove: &[&str]) -> VerifiedUserResponse {
    VerifiedUserResponse {
        source: "s".to_string(),
        ckey: ckey.to_string(),
        discord_id: "1".to_string(),
        authentik_username: Some("auth".to_string()),
        roles_to_add: add.iter().map(|s| s.to_string()).collect(),
        roles_to_remove: remove.iter().map(|s| s.to_string()).collect(),
    }
}

#[test]
fn role_plan_gives_missing_and_takes_held_roles() {
    let u = check("k", &["10", "20", "bad", "30", "10"], &["20", "40", "x", "50"]);
    let plan = plan_role_changes(&u, &vec![20, 40]);
    assert_eq!(plan.grant, vec![10, 30, 10]);
    assert_eq!(plan.revoke, vec![20, 40]);
    let none = plan_role_changes(&check("k", &[], &[]), &vec![1]);
    assert!(none.grant.is_empty() && none.revoke.is_empty());
}

#[test]
fn mentions() {
    assert_eq!(mention(42), "<@42>");
}

#[test]
fn new_member_without_account_is_welcomed() {
    let c = config();
    let s = c.server_for_guild(100).unwrap();
    let m = welcome_message(&c, &s, 77, &check("", &[], &[])).unwrap();
    assert_eq!(m.channel_id, 555);
    assert_eq!(m.content, "<@77>");
    assert_eq!(m.embed.title, "Verification Required");
    assert_eq!(
        m.embed.description,
        "Welcome <@77>! We require you to verify your BYOND account with us before you can join.\n\nSteps."
    );
    assert_eq!(m.embed.color, COLOR_WARNING);
    assert!(welcome_message(&c, &s, 77, &check("known", &[], &[])).is_none());
}

#[test]
fn bans_are_synced_only_where_configured() {
    let c = config();
    let r = ban_sync_request(&c, 100, 9, true).unwrap();
    assert_eq!(r.discord_id, "9");
    assert!(r.banned);
    assert!(!ban_sync_request(&c, 100, 9, false).unwrap().banned);
    assert!(ban_sync_request(&c, 200, 9, true).is_none());
    assert!(ban_sync_request(&c, 300, 9, true).is_none());
}

#[test]
fn member_outcomes() {
    let found = check("k", &[], &[]);
    let missing = check("", &[], &[]);
    assert_eq!(member_outcome(true, Some(&found), true), MemberOutcome::Bot);
    assert_eq!(member_outcome(false, None, true), MemberOutcome::CheckFailed);
    assert_eq!(member_outcome(false, Some(&found), false), MemberOutcome::RolesFailed);
    assert_eq!(member_outcome(false, Some(&found), true), MemberOutcome::Verified);
    assert_eq!(member_outcome(false, Some(&missing), true), MemberOutcome::NotFound);
}

#[test]
fn every_member_is_counted_once() {
    let mut t = VerifyTally::new();
    let outcomes = [
        MemberOutcome::Bot,
        MemberOutcome::Verified,
        MemberOutcome::NotFound,
        MemberOutcome::CheckFailed,
        MemberOutcome::RolesFailed,
        MemberOutcome::Verified,
    ];
    for o in outcomes {
        t.record(o);
    }
    assert_eq!((t.verified, t.not_found, t.failed, t.processed), (2, 1, 2, 6));
    assert_eq!(t.verified as usize + t.not_found as usize + t.failed as usize + 1, t.processed);
}

#[test]
fn progress_is_reported_every_hundred_members() {
    let mut t = VerifyTally::new();
    let mut reports = vec![];
    for i in 0..250 {
        let o = if i == 99 { MemberOutcome::Bot } else { MemberOutcome::Verified };
        if t.record(o) {
            reports.push(t.processed);
        }
    }
    // The hundredth member is a bot, so no report is sent then.
    assert_eq!(reports, vec![200]);
}

#[test]
fn bulk_verification_messages() {
    assert_eq!(verify_started().title, "Verification Started");
    let mut t = VerifyTally::new();
    t.record(MemberOutcome::Verified);
    t.record(MemberOutcome::NotFound);
    let p = verify_progress(&t, 10, "20.0");
    assert_eq!(p.title, "Verification Progress");
    assert_eq!(p.description, "Processed 2/10 members (20.0%)");
    assert_eq!(p.fields.len(), 3);
    assert_eq!(p.fields[0].name, "Newly Verified");
    assert_eq!(p.fields[0].value, "1");
    let done = verify_complete(&t, 10);
    assert_eq!(done.title, "Bulk Verification Complete");
    assert_eq!(done.description, "Processed 10 members");
    assert_eq!(done.color, COLOR_SUCCESS);
    assert_eq!(done.fields[1].name, "Not Found");
    assert_eq!(done.fields[2].value, "0");
}

#[test]
fn chat_ban_sync_outcomes_and_messages() {
    assert_eq!(ban_sync_outcome(&Ok(())), BanSyncOutcome::ChatBanned);
    assert_eq!(
        ban_sync_outcome(&Err("user_not_found: no such user".to_string())),
        BanSyncOutcome::NotFound
    );
    assert_eq!(ban_sync_outcome(&Err("timeout".to_string())), BanSyncOutcome::Failed);
    let mut t = BanSyncTally::new();
    t.record(BanSyncOutcome::ChatBanned);
    t.record(BanSyncOutcome::Failed);
    t.record(BanSyncOutcome::Failed);
    assert_eq!((t.chat_banned, t.not_found, t.failed), (1, 0, 2));
    assert!(!ban_sync_report_due(0));
    assert!(ban_sync_report_due(99));
    assert!(ban_sync_report_due(199));
    assert_eq!(ban_sync_started().description, "Fetching banned users and setting chat_banned attribute...");
    let p = ban_sync_progress(&t, 3, 300, "1.0");
    assert_eq!(p.description, "Processed 3/300 banned users (1.0%)");
    assert_eq!(p.fields[0].name, "Chat Banned");
    let done = ban_sync_complete(&t, 3);
    assert_eq!(done.title, "Chat Ban Sync Complete");
    assert_eq!(done.description, "Processed 3 banned users");
    assert_eq!(done.fields[2].value, "2");
}
