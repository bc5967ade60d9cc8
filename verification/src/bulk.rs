//! The owner's bulk commands: verifying every member and syncing chat bans
//! for every banned user. Each step's outcome is counted here; progress and
//! final reports are built from the counts.

use vstd::prelude::*;
use vstd::string::*;
use crate::api::VerifiedUserResponse;
use crate::embed::{simple_embed, Embed, EmbedView, FieldView, COLOR_SUCCESS, COLOR_WARNING};
use crate::text::{contains_seq, contains_str, decimal, u64_to_decimal, write_decimal};

verus! {

/// How checking one member ended.
#[derive(Debug, PartialEq, Eq, Clone, Copy)]
pub enum MemberOutcome {
    /// A bot: skipped.
    Bot,
    /// The verification check failed.
    CheckFailed,
    /// The check answered, but giving or taking a role failed.
    RolesFailed,
    /// The member has a linked account and the roles were updated.
    Verified,
    /// The member has no linked account.
    NotFound,
}

/// The outcome for one member: bots are skipped; a failed check or a
/// failed role change counts as failed; otherwise it depends on whether an
/// account was found.
pub open spec fn member_outcome_spec(
    is_bot: bool,
    check: Option<VerifiedUserResponse>,
    roles_ok: bool,
) -> MemberOutcome {
    if is_bot {
        MemberOutcome::Bot
    } else {
        match check {
            None => MemberOutcome::CheckFailed,
            Some(u) => if !roles_ok {
                MemberOutcome::RolesFailed
            } else if u.ckey@.len() > 0 {
                MemberOutcome::Verified
            } else {
                MemberOutcome::NotFound
            },
        }
    }
}

/// Decides the outcome for one member (`check` is `None` when the
/// verification request failed).
pub fn member_outcome(is_bot: bool, check: Option<&VerifiedUserResponse>, roles_ok: bool) -> (o:
    MemberOutcome)
    ensures
        o == member_outcome_spec(
            is_bot,
            match check {
                Some(u) => Some(*u),
                None => None,
            },
            roles_ok,
        ),
{
    if is_bot {
        MemberOutcome::Bot
    } else {
        match check {
            None => MemberOutcome::CheckFailed,
            Some(u) => {
                if !roles_ok {
                    MemberOutcome::RolesFailed
                } else if !u.ckey.as_str().is_empty() {
                    MemberOutcome::Verified
                } else {
                    MemberOutcome::NotFound
                }
            },
        }
    }
}

/// Counts of a bulk verification.
pub struct VerifyTally {
    pub verified: u32,
    pub not_found: u32,
    pub failed: u32,
    /// Members processed so far, bots included.
    pub processed: usize,
}

/// The counts as numbers.
pub struct VerifyCounts {
    pub verified: nat,
    pub not_found: nat,
    pub failed: nat,
    pub processed: nat,
}

impl View for VerifyTally {
    type V = VerifyCounts;

    open spec fn view(&self) -> VerifyCounts {
        VerifyCounts {
            verified: self.verified as nat,
            not_found: self.not_found as nat,
            failed: self.failed as nat,
            processed: self.processed as nat,
        }
    }
}

/// The counts after one more member.
pub open spec fn verify_step(c: VerifyCounts, o: MemberOutcome) -> VerifyCounts {
    let processed = c.processed + 1;
    match o {
        MemberOutcome::Bot => VerifyCounts { processed, ..c },
        MemberOutcome::CheckFailed | MemberOutcome::RolesFailed => VerifyCounts {
            failed: c.failed + 1,
            processed,
            ..c
        },
        MemberOutcome::Verified => VerifyCounts { verified: c.verified + 1, processed, ..c },
        MemberOutcome::NotFound => VerifyCounts { not_found: c.not_found + 1, processed, ..c },
    }
}

/// The counts after the members with outcomes `os`, starting from zero.
pub open spec fn verify_counts(os: Seq<MemberOutcome>) -> VerifyCounts
    decreases os.len(),
{
    if os.len() == 0 {
        VerifyCounts { verified: 0, not_found: 0, failed: 0, processed: 0 }
    } else {
        verify_step(verify_counts(os.drop_last()), os.last())
    }
}

/// How many of the outcomes are bots.
pub open spec fn bots_among(os: Seq<MemberOutcome>) -> nat
    decreases os.len(),
{
    if os.len() == 0 {
        0
    } else {
        bots_among(os.drop_last()) + if os.last() == MemberOutcome::Bot {
            1nat
        } else {
            0nat
        }
    }
}

/// Reports are sent after every hundredth member.
pub const PROGRESS_INTERVAL: usize = 100;

impl VerifyTally {
    /// All counts zero.
    pub fn new() -> (t: VerifyTally)
        ensures
            t@ == verify_counts(Seq::empty()),
    {
        VerifyTally { verified: 0, not_found: 0, failed: 0, processed: 0 }
    }

    /// Counts one more member; returns whether a progress report is due
    /// (a member other than a bot brought the count to a multiple of 100).
    pub fn record(&mut self, o: MemberOutcome) -> (report: bool)
        requires
            old(self).processed < usize::MAX,
            old(self).verified < u32::MAX,
            old(self).not_found < u32::MAX,
            old(self).failed < u32::MAX,
        ensures
            final(self)@ == verify_step(old(self)@, o),
            report == (o != MemberOutcome::Bot && final(self).processed % PROGRESS_INTERVAL == 0),
    {
        self.processed = self.processed + 1;
        match o {
            MemberOutcome::Bot => {
                return false;
            },
            MemberOutcome::CheckFailed | MemberOutcome::RolesFailed => {
                self.failed = self.failed + 1;
            },
            MemberOutcome::Verified => {
                self.verified = self.verified + 1;
            },
            MemberOutcome::NotFound => {
                self.not_found = self.not_found + 1;
            },
        }
        self.processed % PROGRESS_INTERVAL == 0
    }
}

/// Every member is counted exactly once: the verified, not-found and failed
/// counts plus the skipped bots make up the processed count, which is the
/// number of members.
pub proof fn law_verify_counts_every_member(os: Seq<MemberOutcome>)
    ensures
        verify_counts(os).verified + verify_counts(os).not_found + verify_counts(os).failed
            + bots_among(os) == verify_counts(os).processed,
        verify_counts(os).processed == os.len(),
    decreases os.len(),
{
    if os.len() > 0 {
        law_verify_counts_every_member(os.drop_last());
    }
}

/// The three count fields of a report.
pub open spec fn count_fields(
    names: (Seq<char>, Seq<char>, Seq<char>),
    counts: (nat, nat, nat),
) -> Seq<FieldView> {
    seq![
        (names.0, decimal(counts.0), true),
        (names.1, decimal(counts.1), true),
        (names.2, decimal(counts.2), true),
    ]
}

/// Adds the three count fields.
fn add_counts(e: &mut Embed, names: (&str, &str, &str), counts: (u32, u32, u32))
    ensures
        final(e)@ == (EmbedView {
            fields: old(e)@.fields + count_fields(
                (names.0@, names.1@, names.2@),
                (counts.0 as nat, counts.1 as nat, counts.2 as nat),
            ),
            ..old(e)@
        }),
{
    e.add_field(String::from_str(names.0), u64_to_decimal(counts.0 as u64), true);
    e.add_field(String::from_str(names.1), u64_to_decimal(counts.1 as u64), true);
    e.add_field(String::from_str(names.2), u64_to_decimal(counts.2 as u64), true);
    assert(e@.fields =~= old(e)@.fields + count_fields(
        (names.0@, names.1@, names.2@),
        (counts.0 as nat, counts.1 as nat, counts.2 as nat),
    ));
}

/// The names of the count fields of a bulk verification.
pub open spec fn verify_field_names() -> (Seq<char>, Seq<char>, Seq<char>) {
    ("Newly Verified"@, "Not Found"@, "Failed"@)
}

/// The first message of a bulk verification.
pub open spec fn verify_started_embed() -> EmbedView {
    simple_embed(
        "Verification Started"@,
        "Starting bulk verification of all server members. This may take a while..."@,
        COLOR_WARNING,
    )
}

/// The first message of a bulk verification.
pub fn verify_started() -> (e: Embed)
    ensures
        e@ == verify_started_embed(),
{
    Embed::new(
        String::from_str("Verification Started"),
        String::from_str(
            "Starting bulk verification of all server members. This may take a while...",
        ),
        COLOR_WARNING,
    )
}

/// A progress report: processed members out of `total`, the percentage as
/// `percent` writes it, and the counts.
pub open spec fn verify_progress_embed(t: VerifyCounts, total: nat, percent: Seq<char>) -> EmbedView {
    EmbedView {
        fields: count_fields(verify_field_names(), (t.verified, t.not_found, t.failed)),
        ..simple_embed(
            "Verification Progress"@,
            "Processed "@ + decimal(t.processed) + "/"@ + decimal(total) + " members ("@ + percent
                + "%)"@,
            COLOR_WARNING,
        )
    }
}

/// A progress report of a bulk verification.
pub fn verify_progress(t: &VerifyTally, total: usize, percent: &str) -> (e: Embed)
    ensures
        e@ == verify_progress_embed(t@, total as nat, percent@),
        e@.fields == seq![
            ("Newly Verified"@, decimal(t.verified as nat), true),
            ("Not Found"@, decimal(t.not_found as nat), true),
            ("Failed"@, decimal(t.failed as nat), true),
        ],
{
    let mut d = String::from_str("Processed ");
    write_decimal(t.processed as u64, &mut d);
    d.append("/");
    write_decimal(total as u64, &mut d);
    d.append(" members (");
    d.append(percent);
    d.append("%)");
    let mut e = Embed::new(String::from_str("Verification Progress"), d, COLOR_WARNING);
    add_counts(&mut e, ("Newly Verified", "Not Found", "Failed"), (t.verified, t.not_found, t.failed));
    assert(e@.description =~= "Processed "@ + decimal(t@.processed) + "/"@ + decimal(total as nat)
        + " members ("@ + percent@ + "%)"@);
    e
}

/// The final report of a bulk verification of `total` members.
pub open spec fn verify_complete_embed(t: VerifyCounts, total: nat) -> EmbedView {
    EmbedView {
        fields: count_fields(verify_field_names(), (t.verified, t.not_found, t.failed)),
        ..simple_embed(
            "Bulk Verification Complete"@,
            "Processed "@ + decimal(total) + " members"@,
            COLOR_SUCCESS,
        )
    }
}

/// The final report of a bulk verification.
pub fn verify_complete(t: &VerifyTally, total: usize) -> (e: Embed)
    ensures
        e@ == verify_complete_embed(t@, total as nat),
        e@.fields == seq![
            ("Newly Verified"@, decimal(t.verified as nat), true),
            ("Not Found"@, decimal(t.not_found as nat), true),
            ("Failed"@, decimal(t.failed as nat), true),
        ],
        e@.description == "Processed "@ + decimal(total as nat) + " members"@,
{
    let mut d = String::from_str("Processed ");
    write_decimal(total as u64, &mut d);
    d.append(" members");
    let mut e = Embed::new(String::from_str("Bulk Verification Complete"), d, COLOR_SUCCESS);
    add_counts(&mut e, ("Newly Verified", "Not Found", "Failed"), (t.verified, t.not_found, t.failed));
    e
}

/// How setting one banned user's chat ban ended.
#[derive(Debug, PartialEq, Eq, Clone, Copy)]
pub enum BanSyncOutcome {
    ChatBanned,
    NotFound,
    Failed,
}

/// The error text the database gives for an unknown user.
pub open spec fn user_not_found_marker() -> Seq<char> {
    "user_not_found"@
}

/// Success counts as banned; an error that mentions `user_not_found` as not
/// found; any other error as failed.
pub open spec fn ban_sync_outcome_spec(result: Result<(), Seq<char>>) -> BanSyncOutcome {
    match result {
        Ok(()) => BanSyncOutcome::ChatBanned,
        Err(e) => if contains_seq(e, user_not_found_marker()) {
            BanSyncOutcome::NotFound
        } else {
            BanSyncOutcome::Failed
        },
    }
}

/// Classifies the result of setting one chat ban.
pub fn ban_sync_outcome(result: &Result<(), String>) -> (o: BanSyncOutcome)
    ensures
        o == ban_sync_outcome_spec(
            match result {
                Ok(()) => Ok(()),
                Err(e) => Err(e@),
            },
        ),
{
    match result {
        Ok(()) => BanSyncOutcome::ChatBanned,
        Err(e) => {
            if contains_str(e.as_str(), "user_not_found") {
                BanSyncOutcome::NotFound
            } else {
                BanSyncOutcome::Failed
            }
        },
    }
}

/// Counts of a chat-ban sync.
pub struct BanSyncTally {
    pub chat_banned: u32,
    pub not_found: u32,
    pub failed: u32,
}

/// The counts after the outcomes `os`, starting from zero.
pub open spec fn ban_sync_counts(os: Seq<BanSyncOutcome>) -> (nat, nat, nat)
    decreases os.len(),
{
    if os.len() == 0 {
        (0, 0, 0)
    } else {
        let c = ban_sync_counts(os.drop_last());
        match os.last() {
            BanSyncOutcome::ChatBanned => (c.0 + 1, c.1, c.2),
            BanSyncOutcome::NotFound => (c.0, c.1 + 1, c.2),
            BanSyncOutcome::Failed => (c.0, c.1, c.2 + 1),
        }
    }
}

impl BanSyncTally {
    /// All counts zero.
    pub fn new() -> (t: BanSyncTally)
        ensures
            t.chat_banned == 0 && t.not_found == 0 && t.failed == 0,
    {
        BanSyncTally { chat_banned: 0, not_found: 0, failed: 0 }
    }

    /// Counts one more user.
    pub fn record(&mut self, o: BanSyncOutcome)
        requires
            old(self).chat_banned < u32::MAX,
            old(self).not_found < u32::MAX,
            old(self).failed < u32::MAX,
        ensures
            o == BanSyncOutcome::ChatBanned ==> final(self).chat_banned == old(self).chat_banned + 1
                && final(self).not_found == old(self).not_found && final(self).failed == old(
                self,
            ).failed,
            o == BanSyncOutcome::NotFound ==> final(self).not_found == old(self).not_found + 1
                && final(self).chat_banned == old(self).chat_banned && final(self).failed == old(
                self,
            ).failed,
            o == BanSyncOutcome::Failed ==> final(self).failed == old(self).failed + 1
                && final(self).chat_banned == old(self).chat_banned && final(self).not_found == old(
                self,
            ).not_found,
    {
        match o {
            BanSyncOutcome::ChatBanned => {
                self.chat_banned = self.chat_banned + 1;
            },
            BanSyncOutcome::NotFound => {
                self.not_found = self.not_found + 1;
            },
            BanSyncOutcome::Failed => {
                self.failed = self.failed + 1;
            },
        }
    }
}

/// Every banned user is counted exactly once.
pub proof fn law_ban_sync_counts_every_user(os: Seq<BanSyncOutcome>)
    ensures
        ban_sync_counts(os).0 + ban_sync_counts(os).1 + ban_sync_counts(os).2 == os.len(),
    decreases os.len(),
{
    if os.len() > 0 {
        law_ban_sync_counts_every_user(os.drop_last());
    }
}

/// A progress report is due after every hundredth user (`index` counts from 0).
pub fn ban_sync_report_due(index: usize) -> (b: bool)
    requires
        index < usize::MAX,
    ensures
        b == ((index + 1) % (PROGRESS_INTERVAL as int) == 0),
{
    (index + 1) % PROGRESS_INTERVAL == 0
}

/// The names of the count fields of a chat-ban sync.
pub open spec fn ban_sync_field_names() -> (Seq<char>, Seq<char>, Seq<char>) {
    ("Chat Banned"@, "Not Found"@, "Failed"@)
}

/// The first message of a chat-ban sync.
pub open spec fn ban_sync_started_embed() -> EmbedView {
    simple_embed(
        "Chat Ban Sync Started"@,
        "Fetching banned users and setting chat_banned attribute..."@,
        COLOR_WARNING,
    )
}

/// The first message of a chat-ban sync.
pub fn ban_sync_started() -> (e: Embed)
    ensures
        e@ == ban_sync_started_embed(),
{
    Embed::new(
        String::from_str("Chat Ban Sync Started"),
        String::from_str("Fetching banned users and setting chat_banned attribute..."),
        COLOR_WARNING,
    )
}

/// A progress report of a chat-ban sync after `done` users.
pub open spec fn ban_sync_progress_embed(
    counts: (nat, nat, nat),
    done: nat,
    total: nat,
    percent: Seq<char>,
) -> EmbedView {
    EmbedView {
        fields: count_fields(ban_sync_field_names(), counts),
        ..simple_embed(
            "Chat Ban Sync Progress"@,
            "Processed "@ + decimal(done) + "/"@ + decimal(total) + " banned users ("@ + percent
                + "%)"@,
            COLOR_WARNING,
        )
    }
}

/// A progress report of a chat-ban sync.
pub fn ban_sync_progress(t: &BanSyncTally, done: usize, total: usize, percent: &str) -> (e: Embed)
    ensures
        e@ == ban_sync_progress_embed(
            (t.chat_banned as nat, t.not_found as nat, t.failed as nat),
            done as nat,
            total as nat,
            percent@,
        ),
        e@.fields == seq![
            ("Chat Banned"@, decimal(t.chat_banned as nat), true),
            ("Not Found"@, decimal(t.not_found as nat), true),
            ("Failed"@, decimal(t.failed as nat), true),
        ],
{
    let mut d = String::from_str("Processed ");
    write_decimal(done as u64, &mut d);
    d.append("/");
    write_decimal(total as u64, &mut d);
    d.append(" banned users (");
    d.append(percent);
    d.append("%)");
    let mut e = Embed::new(String::from_str("Chat Ban Sync Progress"), d, COLOR_WARNING);
    add_counts(&mut e, ("Chat Banned", "Not Found", "Failed"), (t.chat_banned, t.not_found, t.failed));
    assert(e@.description =~= "Processed "@ + decimal(done as nat) + "/"@ + decimal(total as nat)
        + " banned users ("@ + percent@ + "%)"@);
    e
}

/// The final report of a chat-ban sync of `total` users.
pub open spec fn ban_sync_complete_embed(counts: (nat, nat, nat), total: nat) -> EmbedView {
    EmbedView {
        fields: count_fields(ban_sync_field_names(), counts),
        ..simple_embed(
            "Chat Ban Sync Complete"@,
            "Processed "@ + decimal(total) + " banned users"@,
            COLOR_SUCCESS,
        )
    }
}

/// The final report of a chat-ban sync.
pub fn ban_sync_complete(t: &BanSyncTally, total: usize) -> (e: Embed)
    ensures
        e@ == ban_sync_complete_embed(
            (t.chat_banned as nat, t.not_found as nat, t.failed as nat),
            total as nat,
        ),
        e@.fields == seq![
            ("Chat Banned"@, decimal(t.chat_banned as nat), true),
            ("Not Found"@, decimal(t.not_found as nat), true),
            ("Failed"@, decimal(t.failed as nat), true),
        ],
        e@.description == "Processed "@ + decimal(total as nat) + " banned users"@,
{
    let mut d = String::from_str("Processed ");
    write_decimal(total as u64, &mut d);
    d.append(" banned users");
    let mut e = Embed::new(String::from_str("Chat Ban Sync Complete"), d, COLOR_SUCCESS);
    add_counts(&mut e, ("Chat Banned", "Not Found", "Failed"), (t.chat_banned, t.not_found, t.failed));
    e
}


/// The reports of a bulk verification show each count under its own name:
/// "Newly Verified" the verified count, "Not Found" the not-found count and
/// "Failed" the failed count, in that order.
pub proof fn law_verify_reports_name_their_counts(t: VerifyCounts, total: nat, percent: Seq<char>)
    ensures
        verify_complete_embed(t, total).fields == seq![
            ("Newly Verified"@, decimal(t.verified), true),
            ("Not Found"@, decimal(t.not_found), true),
            ("Failed"@, decimal(t.failed), true),
        ],
        verify_progress_embed(t, total, percent).fields == seq![
            ("Newly Verified"@, decimal(t.verified), true),
            ("Not Found"@, decimal(t.not_found), true),
            ("Failed"@, decimal(t.failed), true),
        ],
{
}

/// The reports of a chat-ban sync show each count under its own name:
/// "Chat Banned", "Not Found" and "Failed", in that order.
pub proof fn law_ban_sync_reports_name_their_counts(
    counts: (nat, nat, nat),
    done: nat,
    total: nat,
    percent: Seq<char>,
)
    ensures
        ban_sync_complete_embed(counts, total).fields == seq![
            ("Chat Banned"@, decimal(counts.0), true),
            ("Not Found"@, decimal(counts.1), true),
            ("Failed"@, decimal(counts.2), true),
        ],
        ban_sync_progress_embed(counts, done, total, percent).fields == seq![
            ("Chat Banned"@, decimal(counts.0), true),
            ("Not Found"@, decimal(counts.1), true),
            ("Failed"@, decimal(counts.2), true),
        ],
{
}

/// After any run of outcomes, the final report's counts are the number of
/// members of each kind: verified ones under "Newly Verified", members
/// without account under "Not Found", failed checks or role changes under
/// "Failed".
pub proof fn law_verify_counts_by_kind(os: Seq<MemberOutcome>)
    ensures
        verify_counts(os).verified == count_of(os, |o: MemberOutcome| o == MemberOutcome::Verified),
        verify_counts(os).not_found == count_of(os, |o: MemberOutcome| o == MemberOutcome::NotFound),
        verify_counts(os).failed == count_of(
            os,
            |o: MemberOutcome| o == MemberOutcome::CheckFailed || o == MemberOutcome::RolesFailed,
        ),
    decreases os.len(),
{
    if os.len() > 0 {
        law_verify_counts_by_kind(os.drop_last());
    }
}

/// After any run of chat-ban outcomes, the counts are the number of users
/// of each kind: banned, not found, failed.
pub proof fn law_ban_sync_counts_by_kind(os: Seq<BanSyncOutcome>)
    ensures
        ban_sync_counts(os).0 == count_of(os, |o: BanSyncOutcome| o == BanSyncOutcome::ChatBanned),
        ban_sync_counts(os).1 == count_of(os, |o: BanSyncOutcome| o == BanSyncOutcome::NotFound),
        ban_sync_counts(os).2 == count_of(os, |o: BanSyncOutcome| o == BanSyncOutcome::Failed),
    decreases os.len(),
{
    if os.len() > 0 {
        law_ban_sync_counts_by_kind(os.drop_last());
    }
}

/// How many elements of `s` satisfy `p`.
pub open spec fn count_of<A>(s: Seq<A>, p: spec_fn(A) -> bool) -> nat
    decreases s.len(),
{
    if s.len() == 0 {
        0
    } else {
        count_of(s.drop_last(), p) + if p(s.last()) {
            1nat
        } else {
            0nat
        }
    }
}

} // verus!
