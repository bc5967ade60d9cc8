//! Player notes: how one note is rendered, how notes are ordered, and how
//! the rendered notes are split over message embeds.

use vstd::prelude::*;
use vstd::string::*;
use vstd::set_lib::{lemma_int_range, lemma_subset_equality, set_int_range};
use crate::embed::{Embed, EmbedView, COLOR_INFO};
use crate::text::{
    ascii_upper, byte_cut, byte_len, byte_len_upto, byte_prefix, chars_lt, decimal,
    i64_to_decimal, is_byte_boundary, lemma_byte_len_ascii, lemma_byte_len_concat,
    lemma_byte_len_empty, lemma_chars_lt_irreflexive, lemma_chars_lt_total,
    lemma_chars_lt_transitive, lemma_byte_prefix_unique, signed_decimal, str_lt, to_ascii_upper, u64_to_decimal, Cut,
};

verus! {

/// A note on a player's record, as the game database returns it.
pub struct NoteResponse {
    pub id: i64,
    pub player_id: i64,
    pub admin_id: i64,
    pub text: Option<String>,
    pub date: String,
    pub is_ban: i32,
    pub ban_time: Option<i64>,
    pub is_confidential: i32,
    pub admin_rank: String,
    pub note_category: Option<i32>,
    pub round_id: Option<i32>,
    pub noted_player_ckey: Option<String>,
    pub noting_admin_ckey: Option<String>,
}

/// Most bytes of a note's text that are shown.
pub const NOTE_TEXT_LIMIT: usize = 300;

/// The category a note is filed under.
pub open spec fn category_name(category: Option<i32>) -> Seq<char> {
    match category {
        Some(2) => "Merit"@,
        Some(3) => "Whitelist"@,
        _ => "Admin"@,
    }
}

/// The note's text, or a placeholder when it has none.
pub open spec fn note_text_of(note: NoteResponse) -> Seq<char> {
    match note.text {
        Some(t) => t@,
        None => "No text"@,
    }
}

/// The admin who wrote the note, or a placeholder.
pub open spec fn note_admin_of(note: NoteResponse) -> Seq<char> {
    match note.noting_admin_ckey {
        Some(a) => a@,
        None => "Unknown"@,
    }
}

/// The mark shown on confidential notes.
pub open spec fn confidential_tag(note: NoteResponse) -> Seq<char> {
    if note.is_confidential != 0 {
        " [CONFIDENTIAL]"@
    } else {
        Seq::empty()
    }
}

/// The round the note was written in, when known.
pub open spec fn round_info(note: NoteResponse) -> Seq<char> {
    match note.round_id {
        Some(id) => " (Round "@ + signed_decimal(id as int) + ")"@,
        None => Seq::empty(),
    }
}

/// The text as shown: cut to its first 300 bytes, with an ellipsis, when it
/// is longer.
pub open spec fn shown_text(t: Seq<char>) -> Seq<char> {
    if byte_len(t) > NOTE_TEXT_LIMIT {
        byte_prefix(t, NOTE_TEXT_LIMIT as nat) + "..."@
    } else {
        t
    }
}

/// A long text can be cut at byte 300 only where a character starts there.
pub open spec fn note_cut_ok(note: NoteResponse) -> bool {
    byte_len(note_text_of(note)) > NOTE_TEXT_LIMIT ==> is_byte_boundary(
        note_text_of(note),
        NOTE_TEXT_LIMIT as nat,
    )
}

/// One note as a line of Markdown:
/// `**[CATEGORY]** text` then `*by admin on date[ [CONFIDENTIAL]][ (Round n)]*`.
pub open spec fn formatted_note(note: NoteResponse) -> Seq<char> {
    "**["@ + ascii_upper(category_name(note.note_category)) + "]** "@ + shown_text(
        note_text_of(note),
    ) + "\n*by "@ + note_admin_of(note) + " on "@ + note.date@ + confidential_tag(note)
        + round_info(note) + "*"@
}

/// Whether the note's text can be shown (see `note_cut_ok`).
pub fn note_text_cuttable(note: &NoteResponse) -> (b: bool)
    ensures
        b == note_cut_ok(*note),
{
    let text: &str = match &note.text {
        Some(t) => t.as_str(),
        None => "No text",
    };
    match byte_cut(text, NOTE_TEXT_LIMIT) {
        Cut::Inside => false,
        _ => true,
    }
}

/// A shown text takes at most 303 bytes: 300 of the text and the ellipsis.
pub proof fn law_shown_text_bounded(t: Seq<char>)
    requires
        byte_len(t) > NOTE_TEXT_LIMIT ==> is_byte_boundary(t, NOTE_TEXT_LIMIT as nat),
    ensures
        byte_len(shown_text(t)) <= NOTE_TEXT_LIMIT + 3,
{
    if byte_len(t) > NOTE_TEXT_LIMIT {
        let k = choose|k: int| 0 <= k <= t.len() && #[trigger] byte_len(t.take(k)) == NOTE_TEXT_LIMIT as nat;
        lemma_byte_prefix_unique(t, NOTE_TEXT_LIMIT as nat, k);
        reveal_strlit("...");
        lemma_byte_len_ascii("..."@);
        lemma_byte_len_concat(byte_prefix(t, NOTE_TEXT_LIMIT as nat), "..."@);
    }
}

/// Renders one note.
pub fn format_note(note: &NoteResponse) -> (s: String)
    requires
        note_cut_ok(*note),
    ensures
        s@ == formatted_note(*note),
        s@ == "**["@ + ascii_upper(
            match note.note_category {
                Some(2) => "Merit"@,
                Some(3) => "Whitelist"@,
                _ => "Admin"@,
            },
        ) + "]** "@ + shown_text(
            match note.text {
                Some(t) => t@,
                None => "No text"@,
            },
        ) + "\n*by "@ + match note.noting_admin_ckey {
            Some(a) => a@,
            None => "Unknown"@,
        } + " on "@ + note.date@ + (if note.is_confidential != 0 {
            " [CONFIDENTIAL]"@
        } else {
            Seq::empty()
        }) + match note.round_id {
            Some(id) => " (Round "@ + signed_decimal(id as int) + ")"@,
            None => Seq::empty(),
        } + "*"@,
{
    let category: &str = match note.note_category {
        Some(2) => "Merit",
        Some(3) => "Whitelist",
        _ => "Admin",
    };
    let category_upper = to_ascii_upper(category);
    let text: &str = match &note.text {
        Some(t) => t.as_str(),
        None => "No text",
    };
    let admin: &str = match &note.noting_admin_ckey {
        Some(a) => a.as_str(),
        None => "Unknown",
    };
    let mut s = String::from_str("**[");
    s.append(category_upper.as_str());
    s.append("]** ");
    let ghost before_text = s@;
    match byte_cut(text, NOTE_TEXT_LIMIT) {
        Cut::At(k) => {
            let cut = text.substring_char(0, k);
            assert(cut@ =~= text@.take(k as int));
            s.append(cut);
            s.append("...");
        },
        Cut::Whole => {
            s.append(text);
        },
        Cut::Inside => {
            assert(false);
        },
    }
    assert(s@ =~= before_text + shown_text(note_text_of(*note)));
    s.append("\n*by ");
    s.append(admin);
    s.append(" on ");
    s.append(note.date.as_str());
    let ghost before_tags = s@;
    if note.is_confidential != 0 {
        s.append(" [CONFIDENTIAL]");
    }
    assert(s@ =~= before_tags + confidential_tag(*note));
    let ghost before_round = s@;
    match note.round_id {
        Some(id) => {
            s.append(" (Round ");
            let digits = i64_to_decimal(id as i64);
            s.append(digits.as_str());
            s.append(")");
        },
        None => {},
    }
    assert(s@ =~= before_round + round_info(*note));
    s.append("*");
    assert(s@ =~= formatted_note(*note));
    s
}


/// Most bytes in the description of one embed, where the notes allow it.
pub const MAX_DESCRIPTION_LEN: usize = 4000;

/// What goes between two notes in one description.
pub open spec fn note_separator() -> Seq<char> {
    "\n\n"@
}

/// The separator put before a note: none at the start of a description.
pub open spec fn separator_for(current: Seq<char>) -> Seq<char> {
    if current.len() == 0 {
        Seq::empty()
    } else {
        note_separator()
    }
}

/// Adding one rendered note: it goes on the current description if that
/// stays within the limit; otherwise the current description is closed
/// and the note starts a new one.
pub open spec fn chunk_step(state: (Seq<Seq<char>>, Seq<char>), note: Seq<char>) -> (
    Seq<Seq<char>>,
    Seq<char>,
) {
    let closed = state.0;
    let current = state.1;
    let sep = separator_for(current);
    if byte_len(current) + byte_len(sep) + byte_len(note) > MAX_DESCRIPTION_LEN {
        (closed.push(current), note)
    } else {
        (closed, current + sep + note)
    }
}

/// The closed descriptions and the current one after adding `notes` in order.
pub open spec fn chunk_state(notes: Seq<Seq<char>>) -> (Seq<Seq<char>>, Seq<char>)
    decreases notes.len(),
{
    if notes.len() == 0 {
        (Seq::empty(), Seq::empty())
    } else {
        chunk_step(chunk_state(notes.drop_last()), notes.last())
    }
}

/// The descriptions of the embeds for `notes`: the closed ones, then the
/// current one unless it is empty.
pub open spec fn note_descriptions(notes: Seq<Seq<char>>) -> Seq<Seq<char>> {
    let state = chunk_state(notes);
    if state.1.len() == 0 {
        state.0
    } else {
        state.0.push(state.1)
    }
}

/// The rendered notes, in order.
pub open spec fn formatted_notes(notes: Seq<NoteResponse>) -> Seq<Seq<char>> {
    notes.map_values(|n: NoteResponse| formatted_note(n))
}

/// Title of the embed at position `k` of the notes of `ckey`.
pub open spec fn notes_title(ckey: Seq<char>, total: nat, k: int) -> Seq<char> {
    if k == 0 {
        "Notes for "@ + ckey + " ("@ + decimal(total) + " total)"@
    } else {
        "Notes for "@ + ckey + " (continued)"@
    }
}

/// The embed at position `k` of the notes of `ckey` on `server`.
pub open spec fn notes_embed(
    ckey: Seq<char>,
    server: Seq<char>,
    total: nat,
    k: int,
    description: Seq<char>,
) -> EmbedView {
    EmbedView {
        title: notes_title(ckey, total, k),
        description,
        fields: Seq::empty(),
        footer: Some("Server: "@ + server),
        color: COLOR_INFO,
    }
}

/// Every note can be rendered.
pub open spec fn all_notes_cut_ok(notes: Seq<NoteResponse>) -> bool {
    forall|i: int| 0 <= i < notes.len() ==> note_cut_ok(#[trigger] notes[i])
}

/// Whether every note can be rendered (see `note_cut_ok`).
pub fn notes_cuttable(notes: &Vec<NoteResponse>) -> (b: bool)
    ensures
        b == all_notes_cut_ok(notes@),
{
    let mut i: usize = 0;
    while i < notes.len()
        invariant
            i <= notes@.len(),
            forall|j: int| 0 <= j < i ==> note_cut_ok(#[trigger] notes@[j]),
        decreases notes@.len() - i,
    {
        if !note_text_cuttable(&notes[i]) {
            return false;
        }
        i = i + 1;
    }
    true
}

/// Splits the notes of `ckey` (in the order given) over embeds whose
/// descriptions stay within the limit where the notes allow it.
pub fn build_notes_embeds(notes: &Vec<NoteResponse>, ckey: &str, server: &str) -> (embeds: Vec<
    Embed,
>)
    requires
        all_notes_cut_ok(notes@),
    ensures
        embeds@.len() == note_descriptions(formatted_notes(notes@)).len(),
        forall|k: int|
            0 <= k < embeds@.len() ==> (#[trigger] embeds@[k])@ == notes_embed(
                ckey@,
                server@,
                notes@.len() as nat,
                k,
                note_descriptions(formatted_notes(notes@))[k],
            ),
{
    let ghost fs = formatted_notes(notes@);
    let mut descriptions: Vec<String> = Vec::new();
    let mut current = String::new();
    let mut current_len: Option<usize> = Some(0);
    proof {
        reveal_strlit("\n\n");
        lemma_byte_len_ascii("\n\n"@);
        assert(fs.take(0) =~= Seq::<Seq<char>>::empty());
        assert(current@.len() == 0);
        lemma_byte_len_empty();
    }
    let mut i: usize = 0;
    while i < notes.len()
        invariant
            i <= notes@.len(),
            fs == formatted_notes(notes@),
            all_notes_cut_ok(notes@),
            descriptions@.map_values(|d: String| d@) == chunk_state(fs.take(i as int)).0,
            current@ == chunk_state(fs.take(i as int)).1,
            current_len matches Some(n) ==> n == byte_len(current@) && n <= MAX_DESCRIPTION_LEN,
            current_len is None ==> byte_len(current@) > MAX_DESCRIPTION_LEN,
            byte_len(note_separator()) == 2,
            note_separator().len() == 2,
        decreases notes@.len() - i,
    {
        let formatted = format_note(&notes[i]);
        assert(fs.take(i + 1).drop_last() =~= fs.take(i as int));
        assert(fs.take(i + 1).last() == formatted@);
        let sep_len: usize = if current.as_str().is_empty() {
            0
        } else {
            2
        };
        let overflow = match (current_len, byte_len_upto(formatted.as_str(), MAX_DESCRIPTION_LEN)) {
            (Some(c), Some(f)) => c + sep_len + f > MAX_DESCRIPTION_LEN,
            _ => true,
        };
        if overflow {
            let ghost closed_before = descriptions@.map_values(|d: String| d@);
            let f_len = byte_len_upto(formatted.as_str(), MAX_DESCRIPTION_LEN);
            let mut finished = formatted;
            std::mem::swap(&mut finished, &mut current);
            descriptions.push(finished);
            assert(descriptions@.map_values(|d: String| d@) =~= closed_before.push(
                chunk_state(fs.take(i as int)).1,
            ));
            current_len = f_len;
        } else {
            let ghost before = current@;
            if sep_len == 2 {
                current.append("\n\n");
            }
            current.append(formatted.as_str());
            proof {
                lemma_byte_len_concat(before, separator_for(before));
                lemma_byte_len_concat(before + separator_for(before), formatted@);
                if sep_len == 0 {
                    assert(before + separator_for(before) =~= before);
                }
                assert(current@ =~= before + separator_for(before) + formatted@);
            }
            current_len = match (current_len, byte_len_upto(formatted.as_str(), MAX_DESCRIPTION_LEN)) {
                (Some(c), Some(f)) => Some(c + sep_len + f),
                _ => None,
            };
        }
        i = i + 1;
    }
    assert(fs.take(notes@.len() as int) =~= fs);
    if !current.as_str().is_empty() {
        descriptions.push(current);
    }
    let ghost descs = note_descriptions(fs);
    assert(descriptions@.map_values(|d: String| d@) =~= descs);
    let total = notes.len();
    let mut embeds: Vec<Embed> = Vec::new();
    let mut k: usize = 0;
    while k < descriptions.len()
        invariant
            k <= descriptions@.len(),
            descriptions@.map_values(|d: String| d@) == descs,
            total == notes@.len(),
            embeds@.len() == k,
            forall|j: int|
                0 <= j < k ==> (#[trigger] embeds@[j])@ == notes_embed(
                    ckey@,
                    server@,
                    total as nat,
                    j,
                    descs[j],
                ),
        decreases descriptions@.len() - k,
    {
        let mut title = String::from_str("Notes for ");
        title.append(ckey);
        if k == 0 {
            title.append(" (");
            let count = u64_to_decimal(total as u64);
            title.append(count.as_str());
            title.append(" total)");
        } else {
            title.append(" (continued)");
        }
        let mut footer = String::from_str("Server: ");
        footer.append(server);
        let description = descriptions[k].clone();
        assert(description@ == descs[k as int]);
        let mut embed = Embed::new(title, description, COLOR_INFO);
        embed.footer = Some(footer);
        assert(embed@ == notes_embed(ckey@, server@, total as nat, k as int, descs[k as int]));
        embeds.push(embed);
        k = k + 1;
    }
    embeds
}


/// The texts of `pieces` joined by the note separator, skipping empty ones.
pub open spec fn join_pieces(pieces: Seq<Seq<char>>) -> Seq<char>
    decreases pieces.len(),
{
    if pieces.len() == 0 {
        Seq::empty()
    } else {
        let rest = join_pieces(pieces.drop_last());
        let last = pieces.last();
        if last.len() == 0 {
            rest
        } else if rest.len() == 0 {
            last
        } else {
            rest + note_separator() + last
        }
    }
}

/// A description is within the limit, or it is one whole note.
pub open spec fn description_fits(notes: Seq<Seq<char>>, d: Seq<char>) -> bool {
    byte_len(d) <= MAX_DESCRIPTION_LEN || notes.contains(d)
}

/// A rendered note is never empty.
pub proof fn lemma_formatted_nonempty(notes: Seq<NoteResponse>)
    ensures
        forall|j: int|
            0 <= j < notes.len() ==> (#[trigger] formatted_notes(notes)[j]).len() > 0,
{
    reveal_strlit("**[");
}

/// Joining the closed and current descriptions gives back all notes joined.
proof fn lemma_chunk_join(fs: Seq<Seq<char>>)
    requires
        forall|j: int| 0 <= j < fs.len() ==> (#[trigger] fs[j]).len() > 0,
    ensures
        join_pieces(chunk_state(fs).0.push(chunk_state(fs).1)) == join_pieces(fs),
    decreases fs.len(),
{
    reveal_strlit("\n\n");
    if fs.len() == 0 {
        let ps = Seq::<Seq<char>>::empty().push(Seq::<char>::empty());
        assert(ps.drop_last() =~= Seq::<Seq<char>>::empty());
        assert(join_pieces(ps.drop_last()) =~= Seq::<char>::empty());
        assert(ps.last().len() == 0);
        assert(chunk_state(fs).0.push(chunk_state(fs).1) =~= ps);
        assert(join_pieces(ps) == join_pieces(fs));
    } else {
        let pre = fs.drop_last();
        let f = fs.last();
        assert(f == fs[fs.len() - 1]);
        assert forall|j: int| 0 <= j < pre.len() implies (#[trigger] pre[j]).len() > 0 by {
            assert(pre[j] == fs[j]);
        }
        lemma_chunk_join(pre);
        let c = chunk_state(pre).0;
        let cur = chunk_state(pre).1;
        let sep = separator_for(cur);
        if byte_len(cur) + byte_len(sep) + byte_len(f) > MAX_DESCRIPTION_LEN {
            let ps = c.push(cur).push(f);
            assert(ps.drop_last() =~= c.push(cur));
            assert(chunk_state(fs) == (c.push(cur), f));
            assert(join_pieces(ps) == join_pieces(fs));
        } else {
            let x = cur + sep + f;
            let ps = c.push(x);
            assert(ps.drop_last() =~= c);
            let qs = c.push(cur);
            assert(qs.drop_last() =~= c);
            assert(chunk_state(fs) == (c, x));
            if cur.len() == 0 {
                assert(x =~= f);
                assert(join_pieces(ps) == join_pieces(fs));
            } else {
                let jc = join_pieces(c);
                if jc.len() == 0 {
                    assert(x =~= cur + note_separator() + f);
                } else {
                    assert(jc + note_separator() + x =~= (jc + note_separator() + cur)
                        + note_separator() + f);
                }
                assert(join_pieces(ps) == join_pieces(fs));
            }
        }
    }
}

/// Every closed description and the current one fit (see `description_fits`).
proof fn lemma_chunk_sizes(fs: Seq<Seq<char>>)
    ensures
        forall|k: int|
            0 <= k < chunk_state(fs).0.len() ==> description_fits(fs, #[trigger] chunk_state(fs).0[k]),
        description_fits(fs, chunk_state(fs).1),
    decreases fs.len(),
{
    if fs.len() == 0 {
        lemma_byte_len_empty();
    } else {
        let pre = fs.drop_last();
        let f = fs.last();
        lemma_chunk_sizes(pre);
        assert forall|d: Seq<char>| pre.contains(d) implies fs.contains(d) by {
            let j = choose|j: int| 0 <= j < pre.len() && pre[j] == d;
            assert(fs[j] == d);
        }
        assert(fs[fs.len() - 1] == f);
        let c = chunk_state(pre).0;
        let cur = chunk_state(pre).1;
        let sep = separator_for(cur);
        if byte_len(cur) + byte_len(sep) + byte_len(f) > MAX_DESCRIPTION_LEN {
            assert forall|k: int|
                0 <= k < c.push(cur).len() implies description_fits(fs, #[trigger] c.push(cur)[k]) by {
                if k < c.len() {
                    assert(c.push(cur)[k] == c[k]);
                    assert(description_fits(pre, c[k]));
                }
            }
        } else {
            lemma_byte_len_concat(cur, sep);
            lemma_byte_len_concat(cur + sep, f);
            assert forall|k: int| 0 <= k < c.len() implies description_fits(fs, #[trigger] c[k]) by {
                assert(description_fits(pre, c[k]));
            }
        }
    }
}

/// A non-empty note leaves a non-empty current description.
proof fn lemma_chunk_current_nonempty(fs: Seq<Seq<char>>)
    requires
        fs.len() > 0,
        fs.last().len() > 0,
    ensures
        chunk_state(fs).1.len() > 0,
{
}

/// No note is lost or reordered: joining the embed descriptions (empty ones
/// skipped) gives exactly the rendered notes joined by blank lines.
pub proof fn law_notes_embeds_keep_every_note(notes: Seq<NoteResponse>)
    ensures
        join_pieces(note_descriptions(formatted_notes(notes))) == join_pieces(
            formatted_notes(notes),
        ),
{
    let fs = formatted_notes(notes);
    lemma_formatted_nonempty(notes);
    lemma_chunk_join(fs);
    let st = chunk_state(fs);
    if st.1.len() == 0 {
        assert(st.0.push(st.1).drop_last() =~= st.0);
    }
}

/// Every embed description stays within 4000 bytes, unless it is a single
/// note that is longer on its own.
pub proof fn law_notes_embeds_within_limit(notes: Seq<NoteResponse>)
    ensures
        forall|k: int|
            0 <= k < note_descriptions(formatted_notes(notes)).len() ==> description_fits(
                formatted_notes(notes),
                #[trigger] note_descriptions(formatted_notes(notes))[k],
            ),
{
    let fs = formatted_notes(notes);
    lemma_chunk_sizes(fs);
    let st = chunk_state(fs);
    assert forall|k: int|
        0 <= k < note_descriptions(fs).len() implies description_fits(
        fs,
        #[trigger] note_descriptions(fs)[k],
    ) by {
        if k < st.0.len() {
            assert(note_descriptions(fs)[k] == st.0[k]);
        }
    }
}

/// There is at least one notes embed exactly when there is at least one note.
pub proof fn law_notes_embeds_nonempty(notes: Seq<NoteResponse>)
    ensures
        (note_descriptions(formatted_notes(notes)).len() > 0) == (notes.len() > 0),
{
    let fs = formatted_notes(notes);
    lemma_formatted_nonempty(notes);
    if notes.len() > 0 {
        assert(fs.last() == fs[fs.len() - 1]);
        lemma_chunk_current_nonempty(fs);
    }
}


/// Note `a` comes before note `b`: an earlier date, or the same date and an
/// earlier position.
pub open spec fn date_before(notes: Seq<NoteResponse>, a: int, b: int) -> bool {
    chars_lt(notes[a].date@, notes[b].date@) || (notes[a].date@ == notes[b].date@ && a < b)
}

/// `order` lists positions of `notes`, one per note, by date; notes with
/// the same date keep their relative order (a stable sort by date).
pub open spec fn is_date_order(notes: Seq<NoteResponse>, order: Seq<int>) -> bool {
    &&& order.len() == notes.len()
    &&& forall|i: int| 0 <= i < order.len() ==> 0 <= #[trigger] order[i] < notes.len()
    &&& forall|i: int, j: int|
        0 <= i < j < order.len() ==> date_before(notes, #[trigger] order[i], #[trigger] order[j])
}

/// The notes taken in the positions listed by `order`.
pub open spec fn reorder(notes: Seq<NoteResponse>, order: Seq<int>) -> Seq<NoteResponse> {
    order.map_values(|k: int| notes[k])
}

/// Sorts notes by date, oldest first; notes with the same date keep their
/// order (as a stable sort by date does).
pub fn sort_notes_by_date(notes: Vec<NoteResponse>) -> (sorted: Vec<NoteResponse>)
    ensures
        exists|order: Seq<int>| is_date_order(notes@, order) && sorted@ == reorder(notes@, order),
{
    let ghost input = notes@;
    let n = notes.len();
    let mut rest = notes;
    let mut sorted: Vec<NoteResponse> = Vec::new();
    let ghost mut order: Seq<int> = Seq::empty();
    let mut i: usize = 0;
    while i < n
        invariant
            n == input.len(),
            i <= n,
            rest@ == input.skip(i as int),
            order.len() == i,
            sorted@.len() == i,
            forall|p: int| 0 <= p < i ==> 0 <= #[trigger] order[p] < i,
            forall|p: int| 0 <= p < i ==> #[trigger] sorted@[p] == input[order[p]],
            forall|p: int, q: int|
                0 <= p < q < i ==> date_before(input, #[trigger] order[p], #[trigger] order[q]),
        decreases n - i,
    {
        let x = rest.remove(0);
        assert(x == input[i as int]);
        assert(rest@ =~= input.skip(i + 1));
        let mut j: usize = 0;
        let mut found = false;
        while j < sorted.len() && !found
            invariant
                j <= sorted@.len(),
                sorted@.len() == i,
                i < n,
                n == input.len(),
                x == input[i as int],
                forall|p: int| 0 <= p < i ==> #[trigger] sorted@[p] == input[order[p]],
                forall|p: int| 0 <= p < j ==> !chars_lt(x.date@, #[trigger] sorted@[p].date@),
                found ==> j < sorted@.len() && chars_lt(x.date@, sorted@[j as int].date@),
            decreases sorted@.len() - j + if found { 0int } else { 1int },
        {
            if str_lt(x.date.as_str(), sorted[j].date.as_str()) {
                found = true;
            } else {
                j = j + 1;
            }
        }
        let ghost old_order = order;
        let ghost old_sorted = sorted@;
        sorted.insert(j, x);
        proof {
            order = old_order.insert(j as int, i as int);
            assert forall|p: int| 0 <= p < i + 1 implies 0 <= #[trigger] order[p] < i + 1 by {
                if p < j {
                    assert(order[p] == old_order[p]);
                } else if p > j {
                    assert(order[p] == old_order[p - 1]);
                }
            }
            assert forall|p: int| 0 <= p < i + 1 implies #[trigger] sorted@[p] == input[order[p]] by {
                if p < j {
                    assert(sorted@[p] == old_sorted[p]);
                } else if p > j {
                    assert(sorted@[p] == old_sorted[p - 1]);
                }
            }
            assert forall|p: int, q: int|
                0 <= p < q < i + 1 implies date_before(input, #[trigger] order[p], #[trigger] order[q]) by {
                if q < j {
                    assert(order[p] == old_order[p] && order[q] == old_order[q]);
                } else if p > j {
                    assert(order[p] == old_order[p - 1] && order[q] == old_order[q - 1]);
                } else if p < j && q > j {
                    assert(order[p] == old_order[p] && order[q] == old_order[q - 1]);
                } else if q == j {
                    // an earlier element: its date is not after x's date
                    let a = old_order[p];
                    assert(order[p] == a);
                    assert(order[q] == i);
                    assert(old_sorted[p] == input[a]);
                    assert(!chars_lt(x.date@, old_sorted[p].date@));
                    if input[a].date@ != x.date@ {
                        lemma_chars_lt_total(input[a].date@, x.date@);
                    }
                } else {
                    // p == j: x comes before every later element
                    let b = old_order[q - 1];
                    assert(order[p] == i);
                    assert(order[q] == b);
                    assert(found);
                    let c = old_order[j as int];
                    assert(old_sorted[j as int] == input[c]);
                    assert(chars_lt(x.date@, input[c].date@));
                    if q - 1 > j {
                        assert(date_before(input, old_order[j as int], old_order[q - 1]));
                        if chars_lt(input[c].date@, input[b].date@) {
                            lemma_chars_lt_transitive(x.date@, input[c].date@, input[b].date@);
                        }
                    }
                }
            }
        }
        i = i + 1;
    }
    assert(sorted@ =~= reorder(input, order));
    sorted
}


/// No note comes before itself, and of two notes at most one comes first.
proof fn lemma_date_before_asymmetric(notes: Seq<NoteResponse>, a: int, b: int)
    ensures
        !(date_before(notes, a, b) && date_before(notes, b, a)),
        !date_before(notes, a, a),
{
    lemma_chars_lt_irreflexive(notes[a].date@);
    if chars_lt(notes[a].date@, notes[b].date@) && chars_lt(notes[b].date@, notes[a].date@) {
        lemma_chars_lt_transitive(notes[a].date@, notes[b].date@, notes[a].date@);
    }
    if notes[a].date@ == notes[b].date@ {
        lemma_chars_lt_irreflexive(notes[b].date@);
    }
}

/// A date order lists every position.
proof fn lemma_date_order_complete(notes: Seq<NoteResponse>, order: Seq<int>, m: int)
    requires
        is_date_order(notes, order),
        0 <= m < notes.len(),
    ensures
        order.contains(m),
{
    let n = notes.len() as int;
    assert forall|i: int, j: int|
        0 <= i < order.len() && 0 <= j < order.len() && i != j implies order[i] != order[j] by {
        if i < j {
            assert(date_before(notes, order[i], order[j]));
            lemma_date_before_asymmetric(notes, order[i], order[j]);
        } else {
            assert(date_before(notes, order[j], order[i]));
            lemma_date_before_asymmetric(notes, order[j], order[i]);
        }
    }
    assert(order.no_duplicates());
    order.unique_seq_to_set();
    lemma_int_range(0, n);
    assert forall|x: int| order.to_set().contains(x) implies set_int_range(0, n).contains(x) by {
        let i = choose|i: int| 0 <= i < order.len() && order[i] == x;
        assert(0 <= order[i] < n);
    }
    lemma_subset_equality(order.to_set(), set_int_range(0, n));
    assert(set_int_range(0, n).contains(m));
    assert(order.to_set().contains(m));
}

/// Two date orders agree at `k` when they agree before it.
proof fn lemma_date_orders_agree_at(
    notes: Seq<NoteResponse>,
    o1: Seq<int>,
    o2: Seq<int>,
    k: int,
)
    requires
        is_date_order(notes, o1),
        is_date_order(notes, o2),
        0 <= k < notes.len(),
        forall|p: int| 0 <= p < k ==> o1[p] == o2[p],
    ensures
        o1[k] == o2[k],
{
    let u = o1[k];
    let v = o2[k];
    if u != v {
        lemma_date_order_complete(notes, o1, v);
        lemma_date_order_complete(notes, o2, u);
        let p = choose|p: int| 0 <= p < o1.len() && o1[p] == v;
        let q = choose|q: int| 0 <= q < o2.len() && o2[q] == u;
        if p < k {
            assert(o2[p] == v);
            assert(date_before(notes, o2[p], o2[k]));
            lemma_date_before_asymmetric(notes, v, v);
        }
        if q < k {
            assert(o1[q] == u);
            assert(date_before(notes, o1[q], o1[k]));
            lemma_date_before_asymmetric(notes, u, u);
        }
        assert(date_before(notes, o1[k], o1[p]));
        assert(date_before(notes, o2[k], o2[q]));
        lemma_date_before_asymmetric(notes, u, v);
    }
}

/// Two date orders agree on their first `k` positions.
proof fn lemma_date_orders_agree_upto(
    notes: Seq<NoteResponse>,
    o1: Seq<int>,
    o2: Seq<int>,
    k: int,
)
    requires
        is_date_order(notes, o1),
        is_date_order(notes, o2),
        0 <= k <= notes.len(),
    ensures
        forall|p: int| 0 <= p < k ==> o1[p] == o2[p],
    decreases k,
{
    if k > 0 {
        lemma_date_orders_agree_upto(notes, o1, o2, k - 1);
        lemma_date_orders_agree_at(notes, o1, o2, k - 1);
    }
}

/// The date order of a list of notes is unique, so sorting by date is
/// fully determined: equal dates keep their order, and nothing else is free.
pub proof fn law_date_order_unique(notes: Seq<NoteResponse>, o1: Seq<int>, o2: Seq<int>)
    requires
        is_date_order(notes, o1),
        is_date_order(notes, o2),
    ensures
        o1 == o2,
{
    lemma_date_orders_agree_upto(notes, o1, o2, notes.len() as int);
    assert(o1 =~= o2);
}


/// The first notes embed names the player and the total number of notes;
/// every later one says it continues.
pub proof fn law_notes_titles(ckey: Seq<char>, server: Seq<char>, total: nat, k: int, d: Seq<char>)
    ensures
        notes_embed(ckey, server, total, 0, d).title == "Notes for "@ + ckey + " ("@ + decimal(total)
            + " total)"@,
        k != 0 ==> notes_embed(ckey, server, total, k, d).title == "Notes for "@ + ckey
            + " (continued)"@,
        notes_embed(ckey, server, total, k, d).description == d,
        notes_embed(ckey, server, total, k, d).footer == Some("Server: "@ + server),
        notes_embed(ckey, server, total, k, d).fields.len() == 0,
        notes_embed(ckey, server, total, k, d).color == COLOR_INFO,
{
}

} // verus!
