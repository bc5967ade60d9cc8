//! The bot's configuration and the checks and lookups made on it.

use vstd::prelude::*;
use vstd::string::*;
use crate::table::{has_key, lookup, Table};
use crate::text::{decimal, parse_u64, parse_u64_spec, u64_to_decimal, write_decimal};

verus! {

/// Settings of one Discord server (guild) the bot serves.
#[derive(Clone, Copy)]
pub struct ServerConfig {
    pub verification_channel: u64,
    pub chat_ban_on_discord_ban: bool,
}

/// The address of one game server's API.
pub struct ServerUrl {
    pub url: String,
    pub default: bool,
}

/// The whole configuration.
pub struct Config {
    pub discord_token: String,
    /// Game-server APIs by name.
    pub server_urls: Table<ServerUrl>,
    pub api_token: String,
    /// Guild settings by guild ID, written in decimal.
    pub servers: Table<ServerConfig>,
    pub verification_instructions: String,
    pub owner_id: u64,
}

/// How many of the entries are marked as the default.
pub open spec fn default_count(entries: Seq<(Seq<char>, ServerUrl)>) -> nat
    decreases entries.len(),
{
    if entries.len() == 0 {
        0
    } else {
        default_count(entries.drop_last()) + if entries.last().1.default {
            1nat
        } else {
            0nat
        }
    }
}

/// Position of the first entry marked as the default, if any.
pub open spec fn first_default(entries: Seq<(Seq<char>, ServerUrl)>) -> Option<int> {
    if exists|i: int| 0 <= i < entries.len() && #[trigger] entries[i].1.default {
        Some(
            choose|i: int|
                0 <= i < entries.len() && #[trigger] entries[i].1.default && forall|j: int|
                    0 <= j < i ==> !entries[j].1.default,
        )
    } else {
        None
    }
}

/// The error given when no server URL is the default.
pub open spec fn no_default_message() -> Seq<char> {
    "No default server_url configured. Exactly one server_url must have 'default = true'."@
}

/// The error given when `n` server URLs are marked as the default.
pub open spec fn multiple_defaults_message(n: nat) -> Seq<char> {
    "Multiple default server_urls configured ("@ + decimal(n)
        + "). Exactly one server_url must have 'default = true'."@
}

/// The guild IDs among the keys, in order: those keys that parse as `u64`.
pub open spec fn parsed_keys<V>(entries: Seq<(Seq<char>, V)>) -> Seq<u64>
    decreases entries.len(),
{
    if entries.len() == 0 {
        Seq::empty()
    } else {
        let rest = parsed_keys(entries.drop_last());
        match parse_u64_spec(entries.last().0) {
            Some(id) => rest.push(id),
            None => rest,
        }
    }
}

/// The count of defaults in a prefix grows by one exactly at defaults.
proof fn lemma_default_count_step(entries: Seq<(Seq<char>, ServerUrl)>, i: int)
    requires
        0 <= i < entries.len(),
    ensures
        default_count(entries.take(i + 1)) == default_count(entries.take(i)) + if entries[i].1.default {
            1nat
        } else {
            0nat
        },
{
    assert(entries.take(i + 1).drop_last() =~= entries.take(i));
}

/// No defaults among the entries means there is no first default.
proof fn lemma_no_default(entries: Seq<(Seq<char>, ServerUrl)>)
    requires
        default_count(entries) == 0,
    ensures
        forall|i: int| 0 <= i < entries.len() ==> !(#[trigger] entries[i].1.default),
    decreases entries.len(),
{
    if entries.len() > 0 {
        lemma_no_default(entries.drop_last());
        assert forall|i: int| 0 <= i < entries.len() implies !(#[trigger] entries[i].1.default) by {
            if i < entries.len() - 1 {
                assert(entries.drop_last()[i] == entries[i]);
            }
        }
    }
}

impl Config {
    /// Checks that exactly one server URL is marked as the default.
    pub fn validate(&self) -> (r: Result<(), String>)
        ensures
            r is Ok <==> default_count(self.server_urls.entries()) == 1,
            default_count(self.server_urls.entries()) == 0 ==> (r matches Err(e)
                && e@ == no_default_message()),
            default_count(self.server_urls.entries()) >= 2 ==> (r matches Err(e)
                && e@ == multiple_defaults_message(default_count(self.server_urls.entries()))),
            default_count(self.server_urls.entries()) == 0 ==> (r matches Err(e) && e@
                == "No default server_url configured. Exactly one server_url must have 'default = true'."@),
            default_count(self.server_urls.entries()) >= 2 ==> (r matches Err(e) && e@
                == "Multiple default server_urls configured ("@ + decimal(
                default_count(self.server_urls.entries()),
            ) + "). Exactly one server_url must have 'default = true'."@),
    {
        let ghost entries = self.server_urls.entries();
        let n = self.server_urls.len();
        let mut count: usize = 0;
        let mut i: usize = 0;
        while i < n
            invariant
                i <= n,
                n == entries.len(),
                entries == self.server_urls.entries(),
                count == default_count(entries.take(i as int)),
                count <= i,
            decreases n - i,
        {
            proof {
                lemma_default_count_step(entries, i as int);
            }
            if self.server_urls.value_at(i).default {
                count = count + 1;
            }
            i = i + 1;
        }
        assert(entries.take(n as int) =~= entries);
        if count == 0 {
            Err(String::from_str(
                "No default server_url configured. Exactly one server_url must have 'default = true'.",
            ))
        } else if count == 1 {
            Ok(())
        } else {
            let mut msg = String::from_str("Multiple default server_urls configured (");
            write_decimal(count as u64, &mut msg);
            msg.append("). Exactly one server_url must have 'default = true'.");
            Err(msg)
        }
    }

    /// The URL of the default game server; empty when none is marked.
    pub fn default_base_url(&self) -> (r: &str)
        ensures
            first_default(self.server_urls.entries()) matches Some(i)
                ==> r@ == self.server_urls.entries()[i].1.url@,
            first_default(self.server_urls.entries()) is None ==> r@ == ""@,
    {
        let ghost entries = self.server_urls.entries();
        let n = self.server_urls.len();
        let mut i: usize = 0;
        while i < n
            invariant
                i <= n,
                n == entries.len(),
                entries == self.server_urls.entries(),
                forall|j: int| 0 <= j < i ==> !(#[trigger] entries[j].1.default),
            decreases n - i,
        {
            let v = self.server_urls.value_at(i);
            if v.default {
                proof {
                    assert(entries[i as int].1.default);
                    let k = choose|k: int|
                        0 <= k < entries.len() && #[trigger] entries[k].1.default && forall|j: int|
                            0 <= j < k ==> !entries[j].1.default;
                    if k < i {
                        assert(!entries[k].1.default);
                    }
                    if k > i {
                        assert(!entries[i as int].1.default);
                    }
                }
                return v.url.as_str();
            }
            i = i + 1;
        }
        ""
    }

    /// The settings of the guild with ID `guild_id`, if it is configured.
    pub fn server_for_guild(&self, guild_id: u64) -> (r: Option<ServerConfig>)
        ensures
            r == lookup(self.servers.entries(), decimal(guild_id as nat)),
    {
        let key = u64_to_decimal(guild_id);
        match self.servers.get(&key) {
            Some(c) => Some(*c),
            None => None,
        }
    }

    /// Whether the guild with ID `guild_id` is configured.
    pub fn is_configured_guild(&self, guild_id: u64) -> (b: bool)
        ensures
            b == has_key(self.servers.entries(), decimal(guild_id as nat)),
    {
        let key = u64_to_decimal(guild_id);
        self.servers.contains_key(&key)
    }

    /// The IDs of the configured guilds whose keys are numbers, in order.
    pub fn guild_ids(&self) -> (ids: Vec<u64>)
        ensures
            ids@ == parsed_keys(self.servers.entries()),
    {
        let ghost entries = self.servers.entries();
        let n = self.servers.len();
        let mut ids: Vec<u64> = Vec::new();
        let mut i: usize = 0;
        while i < n
            invariant
                i <= n,
                n == entries.len(),
                entries == self.servers.entries(),
                ids@ == parsed_keys(entries.take(i as int)),
            decreases n - i,
        {
            let key = self.servers.key_at(i);
            assert(entries.take(i + 1).drop_last() =~= entries.take(i as int));
            match parse_u64(key.as_str()) {
                Some(id) => ids.push(id),
                None => {},
            }
            i = i + 1;
        }
        assert(entries.take(n as int) =~= entries);
        ids
    }
}

/// The game servers that can be queried.
#[derive(Clone, Copy, PartialEq, Eq)]
pub enum Server {
    Pvp,
    Pve,
}

/// The configuration key of a game server.
pub open spec fn server_key(s: Server) -> Seq<char> {
    match s {
        Server::Pvp => "pvp"@,
        Server::Pve => "pve"@,
    }
}

impl Server {
    /// The name under which the server's URL is configured.
    pub fn as_key(&self) -> (k: &'static str)
        ensures
            k@ == server_key(*self),
    {
        match self {
            Server::Pvp => "pvp",
            Server::Pve => "pve",
        }
    }
}

/// Validation succeeds exactly when there is one default, and then the
/// default base URL is the URL of that one default entry.
pub proof fn law_validated_default_is_unique(entries: Seq<(Seq<char>, ServerUrl)>)
    requires
        default_count(entries) == 1,
    ensures
        first_default(entries) is Some,
        forall|i: int|
            0 <= i < entries.len() && #[trigger] entries[i].1.default ==> first_default(entries)
                == Some(i),
{
    lemma_single_default(entries);
    let i = choose|i: int|
        0 <= i < entries.len() && #[trigger] entries[i].1.default && forall|j: int|
            0 <= j < entries.len() && j != i ==> !entries[j].1.default;
    assert(forall|j: int| 0 <= j < i ==> !entries[j].1.default);
    assert(entries[i].1.default);
    let k = choose|k: int|
        0 <= k < entries.len() && #[trigger] entries[k].1.default && forall|j: int|
            0 <= j < k ==> !entries[j].1.default;
    assert(k == i);
}

/// A count of one means one entry, and no other, is the default.
proof fn lemma_single_default(entries: Seq<(Seq<char>, ServerUrl)>)
    requires
        default_count(entries) == 1,
    ensures
        exists|i: int|
            0 <= i < entries.len() && #[trigger] entries[i].1.default && forall|j: int|
                0 <= j < entries.len() && j != i ==> !entries[j].1.default,
    decreases entries.len(),
{
    let rest = entries.drop_last();
    let n = entries.len() - 1;
    if entries.last().1.default {
        lemma_no_default(rest);
        assert(entries[n].1.default);
        assert forall|j: int| 0 <= j < entries.len() && j != n implies !entries[j].1.default by {
            assert(rest[j] == entries[j]);
        }
    } else {
        lemma_single_default(rest);
        let i = choose|i: int|
            0 <= i < rest.len() && #[trigger] rest[i].1.default && forall|j: int|
                0 <= j < rest.len() && j != i ==> !rest[j].1.default;
        assert(entries[i].1.default);
        assert forall|j: int| 0 <= j < entries.len() && j != i implies !entries[j].1.default by {
            if j < n {
                assert(rest[j] == entries[j]);
            }
        }
    }
}


/// The number of defaults counts exactly the entries marked as default: it
/// is zero when none is, and one more than in the rest whenever one more
/// entry is a default.
pub proof fn law_default_count_counts_defaults(
    entries: Seq<(Seq<char>, ServerUrl)>,
    extra: (Seq<char>, ServerUrl),
)
    ensures
        (forall|i: int| 0 <= i < entries.len() ==> !(#[trigger] entries[i].1.default))
            <==> default_count(entries) == 0,
        default_count(entries.push(extra)) == default_count(entries) + if extra.1.default {
            1nat
        } else {
            0nat
        },
        default_count(entries) <= entries.len(),
    decreases entries.len(),
{
    assert(entries.push(extra).drop_last() =~= entries);
    if default_count(entries) == 0 {
        lemma_no_default(entries);
    }
    if entries.len() > 0 {
        law_default_count_counts_defaults(entries.drop_last(), entries.last());
        if forall|i: int| 0 <= i < entries.len() ==> !(#[trigger] entries[i].1.default) {
            assert(!entries[entries.len() - 1].1.default);
            assert forall|i: int| 0 <= i < entries.drop_last().len() implies !(
            #[trigger] entries.drop_last()[i].1.default) by {
                assert(entries.drop_last()[i] == entries[i]);
            }
        }
    }
}

} // verus!
