use verify_bot::config::{Config, Server, ServerConfig, ServerUrl};
use verify_bot::table::Table;

fn config_with(urls: &[(&str, &str, bool)], guilds: &[(&str, u64, bool)]) -> Config {
    let mut server_urls = Table::new();
    for (name, url, default) in urls {
        server_urls.insert(name.to_string(), ServerUrl { url: url.to_string(), default: *default });
    }
    let mut servers = Table::new();
    for (id, channel, sync) in guilds {
        servers.insert(
            id.to_string(),
            ServerConfig { verification_channel: *channel, chat_ban_on_discord_ban: *sync },
        );
    }
    Config {
        discord_token: "token".to_string(),
        server_urls,
        api_token: "api".to_string(),
        servers,
        verification_instructions: "Link your account.".to_string(),
        owner_id: 1,
    }
}

#[test]
fn validate_accepts_exactly_one_default() {
    let c = config_with(&[("pvp", "https://pvp", true), ("pve", "https://pve", false)], &[]);
    assert_eq!(c.validate(), Ok(()));
}

#[test]
fn validate_rejects_no_default() {
    let c = config_with(&[("pvp", "https://pvp", false)], &[]);
    assert_eq!(
        c.validate(),
        Err("No default server_url configured. Exactly one server_url must have 'default = true'."
            .to_string())
    );
    let empty = config_with(&[], &[]);
    assert!(empty.validate().is_err());
}

#[test]
fn validate_rejects_several_defaults() {
    let c = config_with(
        &[("pvp", "https://pvp", true), ("pve", "https://pve", true), ("dev", "https://dev", true)],
        &[],
    );
    assert_eq!(
        c.validate(),
        Err("Multiple default server_urls configured (3). Exactly one server_url must have 'default = true'."
            .to_string())
    );
}

#[test]
fn default_base_url_is_the_default_entry() {
    let c = config_with(&[("pve", "https://pve", false), ("pvp", "https://pvp", true)], &[]);
    assert_eq!(c.default_base_url(), "https://pvp");
    let none = config_with(&[("pve", "https://pve", false)], &[]);
    assert_eq!(none.default_base_url(), "");
}

#[test]
fn inserting_a_key_again_replaces_its_value() {
    let mut t: Table<u64> = Table::new();
    t.insert("a".to_string(), 1);
    t.insert("b".to_string(), 2);
    t.insert("a".to_string(), 3);
    assert_eq!(t.len(), 2);
    assert_eq!(t.get(&"a".to_string()), Some(&3));
    assert_eq!(t.get(&"b".to_string()), Some(&2));
    assert_eq!(t.get(&"c".to_string()), None);
    assert!(t.contains_key(&"b".to_string()));
}

#[test]
fn guilds_are_found_by_their_decimal_id() {
    let c = config_with(&[], &[("123456789012345678", 42, true), ("0123", 7, false)]);
    assert!(c.is_configured_guild(123456789012345678));
    assert!(!c.is_configured_guild(123));
    let s = c.server_for_guild(123456789012345678).unwrap();
    assert_eq!(s.verification_channel, 42);
    assert!(s.chat_ban_on_discord_ban);
    assert!(c.server_for_guild(5).is_none());
}

#[test]
fn guild_ids_keep_the_keys_that_parse() {
    let c = config_with(&[], &[("10", 1, false), ("abc", 2, false), ("+20", 3, false), ("", 4, false)]);
    assert_eq!(c.guild_ids(), vec![10, 20]);
}

#[test]
fn server_keys() {
    assert_eq!(Server::Pvp.as_key(), "pvp");
    assert_eq!(Server::Pve.as_key(), "pve");
}
