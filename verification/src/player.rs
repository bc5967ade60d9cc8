//! The `/player` command: which record to fetch and how a player's record
//! is shown.

use vstd::prelude::*;
use vstd::string::*;
use crate::api::{DiscordUserResponse, PlayerResponse};
use crate::config::{server_key, Config, Server};
use crate::embed::{
    simple_embed, Embed, EmbedView, FieldView, COLOR_ERROR, COLOR_INFO, COLOR_WARNING,
};
use crate::notes::{
    all_notes_cut_ok, build_notes_embeds, is_date_order, formatted_notes, note_descriptions,
    notes_cuttable, notes_embed, reorder, sort_notes_by_date, NoteResponse,
};
use crate::table::{has_key, lookup};
use crate::text::{ascii_upper, decimal, i64_to_decimal, signed_decimal, to_ascii_upper, u64_to_decimal};

verus! {

/// The answer when neither a user nor a ckey was given.
pub open spec fn missing_target_embed() -> EmbedView {
    simple_embed("Error"@, "You must provide either a user or a ckey."@, COLOR_ERROR)
}

/// Checks that the command names a user or a ckey; if not, the error.
pub fn player_target_check(has_user: bool, has_ckey: bool) -> (r: Option<Embed>)
    ensures
        r is None <==> has_user || has_ckey,
        r matches Some(e) ==> e@ == missing_target_embed(),
{
    if !has_user && !has_ckey {
        Some(
            Embed::new(
                String::from_str("Error"),
                String::from_str("You must provide either a user or a ckey."),
                COLOR_ERROR,
            ),
        )
    } else {
        None
    }
}

/// The game server's name in capitals, as shown to users.
pub open spec fn server_label(server: Server) -> Seq<char> {
    ascii_upper(server_key(server))
}

/// The game server's name in capitals.
pub fn server_label_of(server: Server) -> (s: String)
    ensures
        s@ == server_label(server),
{
    to_ascii_upper(server.as_key())
}

/// The answer when the chosen game server has no configured URL.
pub open spec fn unconfigured_server_embed(server: Server) -> EmbedView {
    simple_embed(
        "Error"@,
        "Server '"@ + server_key(server) + "' is not configured."@,
        COLOR_ERROR,
    )
}

/// The base URL of the chosen game server, or the error to answer with.
pub fn player_server_url(config: &Config, server: Server) -> (r: Result<String, Embed>)
    ensures
        r is Ok <==> has_key(config.server_urls.entries(), server_key(server)),
        r matches Ok(u) ==> lookup(config.server_urls.entries(), server_key(server)) matches Some(
            su,
        ) && u@ == su.url@,
        r matches Err(e) ==> e@ == unconfigured_server_embed(server),
{
    let key = String::from_str(server.as_key());
    match config.server_urls.get(&key) {
        Some(su) => Ok(su.url.clone()),
        None => {
            let mut d = String::from_str("Server '");
            d.append(server.as_key());
            d.append("' is not configured.");
            Err(Embed::new(String::from_str("Error"), d, COLOR_ERROR))
        },
    }
}

/// The answer when the user has no linked account on the game server.
pub open spec fn unlinked_user_embed(name: Seq<char>, server: Server) -> EmbedView {
    simple_embed(
        "User Not Found"@,
        name + " is not linked to any account in the "@ + server_label(server) + " database."@,
        COLOR_WARNING,
    )
}

/// The answer when the user has no linked account on the game server.
pub fn unlinked_user_reply(name: &str, server: Server) -> (e: Embed)
    ensures
        e@ == unlinked_user_embed(name@, server),
{
    let mut d = String::from_str(name);
    d.append(" is not linked to any account in the ");
    let label = server_label_of(server);
    d.append(label.as_str());
    d.append(" database.");
    Embed::new(String::from_str("User Not Found"), d, COLOR_WARNING)
}

/// The answer when no player has the ckey.
pub open spec fn unknown_player_embed(ckey: Seq<char>, server: Server) -> EmbedView {
    simple_embed(
        "Player Not Found"@,
        "No player with ckey '"@ + ckey + "' found in the "@ + server_label(server) + " database."@,
        COLOR_WARNING,
    )
}

/// The answer when no player has the ckey.
pub fn unknown_player_reply(ckey: &str, server: Server) -> (e: Embed)
    ensures
        e@ == unknown_player_embed(ckey@, server),
{
    let mut d = String::from_str("No player with ckey '");
    d.append(ckey);
    d.append("' found in the ");
    let label = server_label_of(server);
    d.append(label.as_str());
    d.append(" database.");
    Embed::new(String::from_str("Player Not Found"), d, COLOR_WARNING)
}

/// A flag of the record is set: present and non-zero.
pub open spec fn flag_set(v: Option<i32>) -> bool {
    match v {
        Some(x) => x != 0,
        None => false,
    }
}

/// The text of an optional value, or `default`.
pub open spec fn text_or(v: Option<String>, default: Seq<char>) -> Seq<char> {
    match v {
        Some(s) => s@,
        None => default,
    }
}

/// The ckey shown for a player.
pub open spec fn ckey_shown(p: PlayerResponse) -> Seq<char> {
    text_or(p.ckey, "Unknown"@)
}

/// Seconds from the Unix epoch to the BYOND epoch (Jan 1, 2000).
pub const BYOND_EPOCH_UNIX: i64 = 946684800;

/// The Unix time of a time-ban expiry given in minutes since the BYOND epoch.
pub open spec fn expiry_unix(minutes: i64) -> int {
    BYOND_EPOCH_UNIX + minutes * 60
}

/// The expiry of a time ban can be computed without overflow.
pub open spec fn expiry_in_range(p: PlayerResponse) -> bool {
    flag_set(p.is_time_banned) ==> match p.time_ban_expiration {
        Some(m) => i64::MIN <= m * 60 <= i64::MAX && i64::MIN <= expiry_unix(m) <= i64::MAX,
        None => true,
    }
}

/// Whether the record's time-ban expiry can be shown (see `expiry_in_range`).
pub fn expiry_computable(p: &PlayerResponse) -> (b: bool)
    ensures
        b == expiry_in_range(*p),
{
    let banned = match p.is_time_banned {
        Some(x) => x != 0,
        None => false,
    };
    if !banned {
        return true;
    }
    match p.time_ban_expiration {
        Some(m) => {
            match m.checked_mul(60) {
                Some(secs) => BYOND_EPOCH_UNIX.checked_add(secs).is_some(),
                None => false,
            }
        },
        None => true,
    }
}

/// A field for an optional value: present only when the value is.
pub open spec fn optional_field(name: Seq<char>, v: Option<String>) -> Seq<FieldView> {
    match v {
        Some(s) => seq![(name, s@, true)],
        None => Seq::empty(),
    }
}

/// The fields with the player's account details.
pub open spec fn detail_fields(p: PlayerResponse) -> Seq<FieldView> {
    optional_field("First Join"@, p.first_join_date) + optional_field("Last Login"@, p.last_login)
        + optional_field("BYOND Account Age"@, p.byond_account_age) + optional_field(
        "Whitelist Status"@,
        p.whitelist_status,
    ) + match p.discord_id {
        Some(d) => seq![("Discord"@, "<@"@ + d@ + ">"@, true)],
        None => Seq::empty(),
    }
}

/// The permanent-ban field, when the player is permanently banned.
pub open spec fn permaban_fields(p: PlayerResponse) -> Seq<FieldView> {
    if flag_set(p.is_permabanned) {
        seq![("PERMABANNED"@, permaban_text(p), false)]
    } else {
        Seq::empty()
    }
}

/// Who banned the player permanently, when, and why.
pub open spec fn permaban_text(p: PlayerResponse) -> Seq<char> {
    "By **"@ + text_or(p.permaban_admin_ckey, "adminbot"@) + "** on "@ + text_or(
        p.permaban_date,
        "Unknown date"@,
    ) + "\n"@ + text_or(p.permaban_reason, "No reason provided"@)
}

/// When a time ban ends, as a Discord relative timestamp.
pub open spec fn expiry_text(p: PlayerResponse) -> Seq<char> {
    match p.time_ban_expiration {
        Some(m) => "<t:"@ + signed_decimal(expiry_unix(m)) + ":R>"@,
        None => "Unknown"@,
    }
}

/// The time-ban field, when the player is time banned.
pub open spec fn timeban_fields(p: PlayerResponse) -> Seq<FieldView> {
    if flag_set(p.is_time_banned) {
        seq![("TIME BANNED"@, timeban_text(p), false)]
    } else {
        Seq::empty()
    }
}

/// Who time banned the player, when, until when, and why.
pub open spec fn timeban_text(p: PlayerResponse) -> Seq<char> {
    "By **"@ + text_or(p.time_ban_admin_ckey, "adminbot"@) + "** on "@ + text_or(
        p.time_ban_date,
        "Unknown date"@,
    ) + "\nExpires: "@ + expiry_text(p) + "\n"@ + text_or(p.time_ban_reason, "No reason provided"@)
}

/// The counts of notes (when the record lists them) and job bans (when
/// there are any).
pub open spec fn count_fields(p: PlayerResponse) -> Seq<FieldView> {
    (match p.notes {
        Some(n) => seq![("Notes"@, decimal(n@.len()), true)],
        None => Seq::empty(),
    }) + (match p.job_bans {
        Some(j) => if j@.len() > 0 {
            seq![("Job Bans"@, decimal(j@.len()), true)]
        } else {
            Seq::empty()
        },
        None => Seq::empty(),
    })
}

/// The colour of a player's summary: red when permanently banned, yellow
/// when time banned, blue otherwise.
pub open spec fn player_color(p: PlayerResponse) -> u32 {
    if flag_set(p.is_permabanned) {
        COLOR_ERROR
    } else if flag_set(p.is_time_banned) {
        COLOR_WARNING
    } else {
        COLOR_INFO
    }
}

/// The summary of a player's record.
pub open spec fn player_embed_spec(p: PlayerResponse, server: Server) -> EmbedView {
    EmbedView {
        title: "Player: "@ + ckey_shown(p),
        description: "Server: **"@ + server_label(server) + "**"@,
        fields: detail_fields(p) + permaban_fields(p) + timeban_fields(p) + count_fields(p),
        footer: None,
        color: player_color(p),
    }
}

/// The text of an optional string, or `default`.
fn str_or<'a>(v: &'a Option<String>, default: &'a str) -> (s: &'a str)
    ensures
        s@ == text_or(*v, default@),
{
    match v {
        Some(t) => t.as_str(),
        None => default,
    }
}

/// Adds a field for an optional value.
fn add_optional_field(e: &mut Embed, name: &str, v: &Option<String>)
    ensures
        final(e)@ == (EmbedView { fields: old(e)@.fields + optional_field(name@, *v), ..old(e)@ }),
{
    match v {
        Some(s) => {
            e.add_field(String::from_str(name), s.clone(), true);
            assert(e@.fields =~= old(e)@.fields + optional_field(name@, *v));
        },
        None => {
            assert(e@.fields =~= old(e)@.fields + optional_field(name@, *v));
        },
    }
}

/// The permanent-ban description.
fn permaban_value(p: &PlayerResponse) -> (v: String)
    ensures
        v@ == permaban_text(*p),
{
    let mut v = String::from_str("By **");
    v.append(str_or(&p.permaban_admin_ckey, "adminbot"));
    v.append("** on ");
    v.append(str_or(&p.permaban_date, "Unknown date"));
    v.append("\n");
    v.append(str_or(&p.permaban_reason, "No reason provided"));
    v
}

/// When the time ban ends.
fn expiry_value(p: &PlayerResponse) -> (v: String)
    requires
        flag_set(p.is_time_banned),
        expiry_in_range(*p),
    ensures
        v@ == expiry_text(*p),
{
    match p.time_ban_expiration {
        Some(m) => {
            let unix: i64 = BYOND_EPOCH_UNIX + m * 60;
            let mut v = String::from_str("<t:");
            let digits = i64_to_decimal(unix);
            v.append(digits.as_str());
            v.append(":R>");
            v
        },
        None => String::from_str("Unknown"),
    }
}

/// The time-ban description.
fn timeban_value(p: &PlayerResponse) -> (v: String)
    requires
        flag_set(p.is_time_banned),
        expiry_in_range(*p),
    ensures
        v@ == timeban_text(*p),
{
    let mut v = String::from_str("By **");
    v.append(str_or(&p.time_ban_admin_ckey, "adminbot"));
    v.append("** on ");
    v.append(str_or(&p.time_ban_date, "Unknown date"));
    v.append("\nExpires: ");
    let expiry = expiry_value(p);
    v.append(expiry.as_str());
    v.append("\n");
    v.append(str_or(&p.time_ban_reason, "No reason provided"));
    v
}

/// Adds the fields with the player's account details.
fn add_detail_fields(e: &mut Embed, p: &PlayerResponse)
    ensures
        final(e)@ == (EmbedView { fields: old(e)@.fields + detail_fields(*p), ..old(e)@ }),
{
    add_optional_field(e, "First Join", &p.first_join_date);
    add_optional_field(e, "Last Login", &p.last_login);
    add_optional_field(e, "BYOND Account Age", &p.byond_account_age);
    add_optional_field(e, "Whitelist Status", &p.whitelist_status);
    match &p.discord_id {
        Some(d) => {
            let mut v = String::from_str("<@");
            v.append(d.as_str());
            v.append(">");
            e.add_field(String::from_str("Discord"), v, true);
        },
        None => {},
    }
    assert(e@.fields =~= old(e)@.fields + detail_fields(*p));
}

/// Adds the note and job-ban counts.
fn add_count_fields(e: &mut Embed, p: &PlayerResponse)
    ensures
        final(e)@ == (EmbedView { fields: old(e)@.fields + count_fields(*p), ..old(e)@ }),
{
    match &p.notes {
        Some(n) => {
            e.add_field(String::from_str("Notes"), u64_to_decimal(n.len() as u64), true);
        },
        None => {},
    }
    match &p.job_bans {
        Some(j) => {
            if j.len() > 0 {
                e.add_field(String::from_str("Job Bans"), u64_to_decimal(j.len() as u64), true);
            }
        },
        None => {},
    }
    assert(e@.fields =~= old(e)@.fields + count_fields(*p));
}

/// The summary of a player's record.
pub fn player_embed(p: &PlayerResponse, server: Server) -> (e: Embed)
    requires
        expiry_in_range(*p),
    ensures
        e@ == player_embed_spec(*p, server),
{
    let perma = match p.is_permabanned {
        Some(x) => x != 0,
        None => false,
    };
    let timed = match p.is_time_banned {
        Some(x) => x != 0,
        None => false,
    };
    let color = if perma {
        COLOR_ERROR
    } else if timed {
        COLOR_WARNING
    } else {
        COLOR_INFO
    };
    let mut title = String::from_str("Player: ");
    title.append(str_or(&p.ckey, "Unknown"));
    let mut description = String::from_str("Server: **");
    let label = server_label_of(server);
    description.append(label.as_str());
    description.append("**");
    let mut e = Embed::new(title, description, color);
    add_detail_fields(&mut e, p);
    let ghost after_details = e@.fields;
    if perma {
        e.add_field(String::from_str("PERMABANNED"), permaban_value(p), false);
    }
    assert(e@.fields =~= after_details + permaban_fields(*p));
    let ghost after_perma = e@.fields;
    if timed {
        e.add_field(String::from_str("TIME BANNED"), timeban_value(p), false);
    }
    assert(e@.fields =~= after_perma + timeban_fields(*p));
    add_count_fields(&mut e, p);
    assert(e@.fields =~= detail_fields(*p) + permaban_fields(*p) + timeban_fields(*p)
        + count_fields(*p));
    e
}


/// Every note of the record can be rendered.
pub open spec fn player_notes_ok(p: PlayerResponse) -> bool {
    match p.notes {
        Some(n) => all_notes_cut_ok(n@),
        None => true,
    }
}

/// Whether every note of the record can be rendered.
pub fn player_notes_renderable(p: &PlayerResponse) -> (b: bool)
    ensures
        b == player_notes_ok(*p),
{
    match &p.notes {
        Some(n) => notes_cuttable(n),
        None => true,
    }
}

/// The embeds after the summary show the notes sorted by date (`order`).
pub open spec fn shows_sorted_notes(
    p: PlayerResponse,
    server: Server,
    notes: Seq<NoteResponse>,
    embeds: Seq<EmbedView>,
) -> bool {
    exists|order: Seq<int>|
        {
            &&& is_date_order(notes, order)
            &&& embeds.len() == 1 + note_descriptions(formatted_notes(reorder(notes, order))).len()
            &&& forall|k: int|
                1 <= k < embeds.len() ==> #[trigger] embeds[k] == notes_embed(
                    ckey_shown(p),
                    server_label(server),
                    notes.len() as nat,
                    k - 1,
                    note_descriptions(formatted_notes(reorder(notes, order)))[k - 1],
                )
        }
}

/// The whole answer to `/player` for a found record: the summary, then the
/// notes (when there are any) sorted by date over as many embeds as needed.
pub fn player_reply(p: PlayerResponse, server: Server) -> (r: Vec<Embed>)
    requires
        expiry_in_range(p),
        player_notes_ok(p),
    ensures
        r@.len() >= 1,
        r@[0]@ == player_embed_spec(p, server),
        (match p.notes {
            Some(n) => n@.len() > 0,
            None => false,
        }) ==> shows_sorted_notes(p, server, p.notes->0@, r@.map_values(|e: Embed| e@)),
        (match p.notes {
            Some(n) => n@.len() == 0,
            None => true,
        }) ==> r@.len() == 1,
{
    let ghost given = p;
    let summary = player_embed(&p, server);
    let ckey = String::from_str(str_or(&p.ckey, "Unknown"));
    let label = server_label_of(server);
    let mut r: Vec<Embed> = Vec::new();
    r.push(summary);
    match p.notes {
        Some(notes) => {
            if notes.len() > 0 {
                let ghost input = notes@;
                let sorted = sort_notes_by_date(notes);
                let ghost order = choose|order: Seq<int>|
                    is_date_order(input, order) && sorted@ == reorder(input, order);
                assert(all_notes_cut_ok(sorted@)) by {
                    assert forall|i: int| 0 <= i < sorted@.len() implies crate::notes::note_cut_ok(
                        #[trigger] sorted@[i],
                    ) by {
                        assert(sorted@[i] == input[order[i]]);
                    }
                }
                let mut more = build_notes_embeds(&sorted, ckey.as_str(), label.as_str());
                let ghost descs = note_descriptions(formatted_notes(sorted@));
                let ghost more_views = more@;
                r.append(&mut more);
                assert(r@.len() == 1 + more_views.len());
                assert(forall|j: int| 1 <= j < r@.len() ==> r@[j] == more_views[j - 1]);
                proof {
                    let views = r@.map_values(|e: Embed| e@);
                    assert(is_date_order(input, order));
                    assert(views.len() == 1 + note_descriptions(formatted_notes(reorder(input, order))).len());
                    assert forall|j: int| 1 <= j < views.len() implies #[trigger] views[j] == notes_embed(
                        ckey_shown(given),
                        server_label(server),
                        input.len() as nat,
                        j - 1,
                        note_descriptions(formatted_notes(reorder(input, order)))[j - 1],
                    ) by {
                        assert(views[j] == r@[j]@);
                    }
                }
            }
        },
        None => {},
    }
    r
}


/// The next step of `/player`.
pub enum PlayerAction {
    /// Answer with this embed; the command ends.
    Answer(Embed),
    /// Look up the account linked to the Discord user.
    LookUpUser { base_url: String, user_id: u64 },
    /// Fetch the record of the player with this ckey.
    FetchPlayer { base_url: String, ckey: String },
}

/// The first step of `/player` on `server`, for the Discord user `user_id`
/// or the ckey given (a given ckey is used before the user).
pub fn player_start(config: &Config, server: Server, user_id: Option<u64>, ckey: Option<String>) -> (a:
    PlayerAction)
    ensures
        user_id is None && ckey is None ==> (a matches PlayerAction::Answer(e) && e@
            == missing_target_embed()),
        (user_id is Some || ckey is Some) && !has_key(config.server_urls.entries(), server_key(server))
            ==> (a matches PlayerAction::Answer(e) && e@ == unconfigured_server_embed(server)),
        (user_id is Some || ckey is Some) && has_key(config.server_urls.entries(), server_key(server))
            ==> {
            let url = lookup(config.server_urls.entries(), server_key(server))->0.url@;
            match ckey {
                Some(c) => a matches PlayerAction::FetchPlayer { base_url, ckey: k } && base_url@
                    == url && k@ == c@,
                None => a matches PlayerAction::LookUpUser { base_url, user_id: u } && base_url@
                    == url && user_id == Some(u),
            }
        },
{
    match player_target_check(user_id.is_some(), ckey.is_some()) {
        Some(e) => {
            return PlayerAction::Answer(e);
        },
        None => {},
    }
    let base_url = match player_server_url(config, server) {
        Ok(u) => u,
        Err(e) => {
            return PlayerAction::Answer(e);
        },
    };
    match ckey {
        Some(c) => PlayerAction::FetchPlayer { base_url, ckey: c },
        None => PlayerAction::LookUpUser { base_url, user_id: user_id.unwrap() },
    }
}

/// The step of `/player` after looking up the user called `name`: fetch
/// the linked ckey's record, or say that there is none.
pub fn player_after_lookup(
    base_url: String,
    name: &str,
    server: Server,
    linked: Option<DiscordUserResponse>,
) -> (a: PlayerAction)
    ensures
        linked is None ==> (a matches PlayerAction::Answer(e) && e@ == unlinked_user_embed(
            name@,
            server,
        )),
        linked matches Some(d) ==> (a matches PlayerAction::FetchPlayer { base_url: b, ckey: k }
            && b@ == base_url@ && k@ == d.ckey@),
{
    match linked {
        Some(d) => PlayerAction::FetchPlayer { base_url, ckey: d.ckey },
        None => PlayerAction::Answer(unlinked_user_reply(name, server)),
    }
}

/// The record, when found, can be shown (see `expiry_in_range` and
/// `player_notes_ok`).
pub open spec fn record_showable(found: Option<PlayerResponse>) -> bool {
    found matches Some(p) ==> expiry_in_range(p) && player_notes_ok(p)
}

/// Whether the record, when found, can be shown.
pub fn record_is_showable(found: &Option<PlayerResponse>) -> (b: bool)
    ensures
        b == record_showable(*found),
{
    match found {
        Some(p) => expiry_computable(p) && player_notes_renderable(p),
        None => true,
    }
}

/// The answer of `/player` after fetching the record of `ckey`.
pub fn player_answer(server: Server, ckey: &str, found: Option<PlayerResponse>) -> (r: Vec<Embed>)
    requires
        record_showable(found),
    ensures
        found is None ==> r@.len() == 1 && r@[0]@ == unknown_player_embed(ckey@, server),
        found matches Some(p) ==> r@.len() >= 1 && r@[0]@ == player_embed_spec(p, server) && ((match p.notes {
            Some(n) => n@.len() > 0,
            None => false,
        }) ==> shows_sorted_notes(p, server, p.notes->0@, r@.map_values(|e: Embed| e@))) && ((match p.notes {
            Some(n) => n@.len() == 0,
            None => true,
        }) ==> r@.len() == 1),
{
    match found {
        Some(p) => player_reply(p, server),
        None => {
            let mut r = Vec::new();
            r.push(unknown_player_reply(ckey, server));
            r
        },
    }
}


/// No field of `fields` is called `name`.
pub open spec fn no_field_named(fields: Seq<FieldView>, name: Seq<char>) -> bool {
    forall|i: int| 0 <= i < fields.len() ==> (#[trigger] fields[i]).0 != name
}

/// A field is found in a concatenation when it is found in either part.
proof fn lemma_contains_concat(a: Seq<FieldView>, b: Seq<FieldView>, x: FieldView)
    requires
        a.contains(x) || b.contains(x),
    ensures
        (a + b).contains(x),
{
    if a.contains(x) {
        let i = choose|i: int| 0 <= i < a.len() && a[i] == x;
        assert((a + b)[i] == x);
    } else {
        let i = choose|i: int| 0 <= i < b.len() && b[i] == x;
        assert((a + b)[a.len() + i] == x);
    }
}

/// A name missing from both parts is missing from the concatenation.
proof fn lemma_absent_concat(a: Seq<FieldView>, b: Seq<FieldView>, name: Seq<char>)
    requires
        no_field_named(a, name),
        no_field_named(b, name),
    ensures
        no_field_named(a + b, name),
{
    assert forall|i: int| 0 <= i < (a + b).len() implies (#[trigger] (a + b)[i]).0 != name by {
        if i < a.len() {
            assert((a + b)[i] == a[i]);
        } else {
            assert((a + b)[i] == b[i - a.len()]);
        }
    }
}

/// The names of the summary's fields, which all differ from each other.
pub open spec fn summary_field_names() -> Seq<Seq<char>> {
    seq![
        "First Join"@,
        "Last Login"@,
        "BYOND Account Age"@,
        "Whitelist Status"@,
        "Discord"@,
        "PERMABANNED"@,
        "TIME BANNED"@,
        "Notes"@,
        "Job Bans"@,
    ]
}

/// The summary's field names start with different letters, so they differ.
proof fn lemma_summary_names_distinct()
    ensures
        forall|i: int, j: int|
            0 <= i < 9 && 0 <= j < 9 && i != j ==> #[trigger] summary_field_names()[i]
                != #[trigger] summary_field_names()[j],
{
    reveal_strlit("First Join");
    reveal_strlit("Last Login");
    reveal_strlit("BYOND Account Age");
    reveal_strlit("Whitelist Status");
    reveal_strlit("Discord");
    reveal_strlit("PERMABANNED");
    reveal_strlit("TIME BANNED");
    reveal_strlit("Notes");
    reveal_strlit("Job Bans");
    let n = summary_field_names();
    assert forall|i: int, j: int|
        0 <= i < 9 && 0 <= j < 9 && i != j implies #[trigger] n[i] != #[trigger] n[j] by {
        assert(n[i][0] != n[j][0]);
    }
}

/// The summary's parts in order: each is empty or one field named by the
/// summary name at the same position.
pub open spec fn summary_part(p: PlayerResponse, m: int) -> Seq<FieldView> {
    if m == 0 {
        optional_field("First Join"@, p.first_join_date)
    } else if m == 1 {
        optional_field("Last Login"@, p.last_login)
    } else if m == 2 {
        optional_field("BYOND Account Age"@, p.byond_account_age)
    } else if m == 3 {
        optional_field("Whitelist Status"@, p.whitelist_status)
    } else if m == 4 {
        match p.discord_id {
            Some(d) => seq![("Discord"@, "<@"@ + d@ + ">"@, true)],
            None => Seq::empty(),
        }
    } else if m == 5 {
        permaban_fields(p)
    } else if m == 6 {
        timeban_fields(p)
    } else if m == 7 {
        match p.notes {
            Some(n) => seq![("Notes"@, decimal(n@.len()), true)],
            None => Seq::empty(),
        }
    } else {
        match p.job_bans {
            Some(j) => if j@.len() > 0 {
                seq![("Job Bans"@, decimal(j@.len()), true)]
            } else {
                Seq::empty()
            },
            None => Seq::empty(),
        }
    }
}

/// The summary's fields are its parts one after the other.
proof fn lemma_summary_is_parts(p: PlayerResponse, server: Server)
    ensures
        player_embed_spec(p, server).fields == summary_part(p, 0) + summary_part(p, 1)
            + summary_part(p, 2) + summary_part(p, 3) + summary_part(p, 4) + summary_part(p, 5)
            + summary_part(p, 6) + summary_part(p, 7) + summary_part(p, 8),
{
    assert(player_embed_spec(p, server).fields =~= summary_part(p, 0) + summary_part(p, 1)
        + summary_part(p, 2) + summary_part(p, 3) + summary_part(p, 4) + summary_part(p, 5)
        + summary_part(p, 6) + summary_part(p, 7) + summary_part(p, 8));
}

/// A part other than the one named `summary_field_names()[k]` has no field
/// of that name; an empty part has none at all.
proof fn lemma_part_lacks(p: PlayerResponse, m: int, k: int)
    requires
        0 <= m < 9,
        0 <= k < 9,
        m != k || summary_part(p, m).len() == 0,
    ensures
        no_field_named(summary_part(p, m), summary_field_names()[k]),
{
    lemma_summary_names_distinct();
    let part = summary_part(p, m);
    let n = summary_field_names();
    assert forall|i: int| 0 <= i < part.len() implies (#[trigger] part[i]).0 != n[k] by {
        assert(part[i].0 == n[m]);
    }
}

/// A summary name whose part is empty names no field of the summary.
proof fn lemma_summary_lacks(p: PlayerResponse, server: Server, k: int)
    requires
        0 <= k < 9,
        summary_part(p, k).len() == 0,
    ensures
        no_field_named(player_embed_spec(p, server).fields, summary_field_names()[k]),
{
    let name = summary_field_names()[k];
    lemma_part_lacks(p, 0, k);
    lemma_part_lacks(p, 1, k);
    lemma_part_lacks(p, 2, k);
    lemma_part_lacks(p, 3, k);
    lemma_part_lacks(p, 4, k);
    lemma_part_lacks(p, 5, k);
    lemma_part_lacks(p, 6, k);
    lemma_part_lacks(p, 7, k);
    lemma_part_lacks(p, 8, k);
    let s1 = summary_part(p, 0) + summary_part(p, 1);
    lemma_absent_concat(summary_part(p, 0), summary_part(p, 1), name);
    let s2 = s1 + summary_part(p, 2);
    lemma_absent_concat(s1, summary_part(p, 2), name);
    let s3 = s2 + summary_part(p, 3);
    lemma_absent_concat(s2, summary_part(p, 3), name);
    let s4 = s3 + summary_part(p, 4);
    lemma_absent_concat(s3, summary_part(p, 4), name);
    let s5 = s4 + summary_part(p, 5);
    lemma_absent_concat(s4, summary_part(p, 5), name);
    let s6 = s5 + summary_part(p, 6);
    lemma_absent_concat(s5, summary_part(p, 6), name);
    let s7 = s6 + summary_part(p, 7);
    lemma_absent_concat(s6, summary_part(p, 7), name);
    lemma_absent_concat(s7, summary_part(p, 8), name);
    lemma_summary_is_parts(p, server);
}

/// A field of a part is a field of the summary.
proof fn lemma_summary_has(p: PlayerResponse, server: Server, k: int, x: FieldView)
    requires
        0 <= k < 9,
        summary_part(p, k).contains(x),
    ensures
        player_embed_spec(p, server).fields.contains(x),
{
    let q0 = summary_part(p, 0);
    let q1 = summary_part(p, 1);
    let q2 = summary_part(p, 2);
    let q3 = summary_part(p, 3);
    let q4 = summary_part(p, 4);
    let q5 = summary_part(p, 5);
    let q6 = summary_part(p, 6);
    let q7 = summary_part(p, 7);
    let q8 = summary_part(p, 8);
    let s1 = q0 + q1;
    lemma_contains_concat_opt(q0, q1, x);
    let s2 = s1 + q2;
    lemma_contains_concat_opt(s1, q2, x);
    let s3 = s2 + q3;
    lemma_contains_concat_opt(s2, q3, x);
    let s4 = s3 + q4;
    lemma_contains_concat_opt(s3, q4, x);
    let s5 = s4 + q5;
    lemma_contains_concat_opt(s4, q5, x);
    let s6 = s5 + q6;
    lemma_contains_concat_opt(s5, q6, x);
    let s7 = s6 + q7;
    lemma_contains_concat_opt(s6, q7, x);
    lemma_contains_concat_opt(s7, q8, x);
    lemma_summary_is_parts(p, server);
}

/// `a + b` contains whatever `a` or `b` contains.
proof fn lemma_contains_concat_opt(a: Seq<FieldView>, b: Seq<FieldView>, x: FieldView)
    ensures
        a.contains(x) || b.contains(x) ==> (a + b).contains(x),
{
    if a.contains(x) || b.contains(x) {
        lemma_contains_concat(a, b, x);
    }
}

/// A summary field called by the `k`-th summary name, present exactly when
/// `present` holds and then equal to `field`.
pub open spec fn shows_exactly(fields: Seq<FieldView>, k: int, present: bool, field: FieldView) -> bool {
    &&& present ==> fields.contains(field)
    &&& !present ==> no_field_named(fields, summary_field_names()[k])
}

/// Shows part `k` of the summary present exactly when it is non-empty.
proof fn lemma_summary_shows(p: PlayerResponse, server: Server, k: int, field: FieldView)
    requires
        0 <= k < 9,
        summary_part(p, k).len() > 0 ==> summary_part(p, k)[0] == field,
    ensures
        shows_exactly(player_embed_spec(p, server).fields, k, summary_part(p, k).len() > 0, field),
{
    if summary_part(p, k).len() > 0 {
        assert(summary_part(p, k)[0] == field);
        assert(summary_part(p, k).contains(field));
        lemma_summary_has(p, server, k, field);
    } else {
        lemma_summary_lacks(p, server, k);
    }
}

/// The details of a player's summary come from the record: each optional
/// detail appears, with its value, exactly when the record has it.
pub proof fn law_player_summary_details(p: PlayerResponse, server: Server)
    ensures
        player_embed_spec(p, server).title == "Player: "@ + match p.ckey {
            Some(c) => c@,
            None => "Unknown"@,
        },
        shows_exactly(
            player_embed_spec(p, server).fields,
            0,
            p.first_join_date is Some,
            ("First Join"@, p.first_join_date->0@, true),
        ),
        shows_exactly(
            player_embed_spec(p, server).fields,
            1,
            p.last_login is Some,
            ("Last Login"@, p.last_login->0@, true),
        ),
        shows_exactly(
            player_embed_spec(p, server).fields,
            2,
            p.byond_account_age is Some,
            ("BYOND Account Age"@, p.byond_account_age->0@, true),
        ),
        shows_exactly(
            player_embed_spec(p, server).fields,
            3,
            p.whitelist_status is Some,
            ("Whitelist Status"@, p.whitelist_status->0@, true),
        ),
        shows_exactly(
            player_embed_spec(p, server).fields,
            4,
            p.discord_id is Some,
            ("Discord"@, "<@"@ + p.discord_id->0@ + ">"@, true),
        ),
{
    lemma_summary_shows(p, server, 0, ("First Join"@, p.first_join_date->0@, true));
    lemma_summary_shows(p, server, 1, ("Last Login"@, p.last_login->0@, true));
    lemma_summary_shows(p, server, 2, ("BYOND Account Age"@, p.byond_account_age->0@, true));
    lemma_summary_shows(p, server, 3, ("Whitelist Status"@, p.whitelist_status->0@, true));
    lemma_summary_shows(p, server, 4, ("Discord"@, "<@"@ + p.discord_id->0@ + ">"@, true));
}

/// The ban fields, the counts and the colour of a player's summary come
/// from the record: "PERMABANNED" and "TIME BANNED" appear exactly when
/// those bans are set; "Notes" shows the number of notes exactly when the
/// record lists notes; "Job Bans" shows the number of job bans exactly when
/// there is at least one; the colour is red for a permanent ban, yellow for
/// a time ban only, and blue otherwise.
pub proof fn law_player_summary_bans_and_counts(p: PlayerResponse, server: Server)
    ensures
        shows_exactly(
            player_embed_spec(p, server).fields,
            5,
            p.is_permabanned matches Some(x) && x != 0,
            ("PERMABANNED"@, permaban_text(p), false),
        ),
        shows_exactly(
            player_embed_spec(p, server).fields,
            6,
            p.is_time_banned matches Some(x) && x != 0,
            ("TIME BANNED"@, timeban_text(p), false),
        ),
        shows_exactly(
            player_embed_spec(p, server).fields,
            7,
            p.notes is Some,
            ("Notes"@, decimal(p.notes->0@.len()), true),
        ),
        shows_exactly(
            player_embed_spec(p, server).fields,
            8,
            p.job_bans matches Some(j) && j@.len() > 0,
            ("Job Bans"@, decimal(p.job_bans->0@.len()), true),
        ),
        (p.is_permabanned matches Some(x) && x != 0) ==> player_embed_spec(p, server).color
            == COLOR_ERROR,
        !(p.is_permabanned matches Some(x) && x != 0) && (p.is_time_banned matches Some(x) && x
            != 0) ==> player_embed_spec(p, server).color == COLOR_WARNING,
        !(p.is_permabanned matches Some(x) && x != 0) && !(p.is_time_banned matches Some(x) && x
            != 0) ==> player_embed_spec(p, server).color == COLOR_INFO,
{
    lemma_summary_shows(p, server, 5, ("PERMABANNED"@, permaban_text(p), false));
    lemma_summary_shows(p, server, 6, ("TIME BANNED"@, timeban_text(p), false));
    lemma_summary_shows(p, server, 7, ("Notes"@, decimal(p.notes->0@.len()), true));
    lemma_summary_shows(p, server, 8, ("Job Bans"@, decimal(p.job_bans->0@.len()), true));
}

} // verus!
