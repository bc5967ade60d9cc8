use verify_bot::embed::COLOR_INFO;
use verify_bot::notes::{
    build_notes_embeds, format_note, note_text_cuttable, notes_cuttable, sort_notes_by_date,
    NoteResponse,
};

fn note(text: Option<&str>, date: &str) -> NoteResponse {
    NoteResponse {
        id: 1,
        player_id: 2,
        admin_id: 3,
        text: text.map(|t| t.to_string()),
        date: date.to_string(),
        is_ban: 0,
        ban_time: None,
        is_confidential: 0,
        admin_rank: "Admin".to_string(),
        note_category: None,
        round_id: None,
        noted_player_ckey: None,
        noting_admin_ckey: Some("mod".to_string()),
    }
}

#[test]
fn plain_note() {
    let n = note(Some("Was rude."), "2024-05-01");
    assert_eq!(format_note(&n), "**[ADMIN]** Was rude.\n*by mod on 2024-05-01*");
}

#[test]
fn note_with_all_tags() {
    let mut n = note(None, "2023-01-02");
    n.note_category = Some(2);
    n.is_confidential = 1;
    n.round_id = Some(-17);
    n.noting_admin_ckey = None;
    assert_eq!(
        format_note(&n),
        "**[MERIT]** No text\n*by Unknown on 2023-01-02 [CONFIDENTIAL] (Round -17)*"
    );
    n.note_category = Some(3);
    n.round_id = Some(12345);
    n.is_confidential = 0;
    assert!(format_note(&n).starts_with("**[WHITELIST]** "));
    assert!(format_note(&n).ends_with(" (Round 12345)*"));
}

#[test]
fn long_text_is_cut_at_300_bytes() {
    let text = "x".repeat(301);
    let n = note(Some(&text), "d");
    let expected = format!("**[ADMIN]** {}...\n*by mod on d*", "x".repeat(300));
    assert_eq!(format_note(&n), expected);
    let exact = "y".repeat(300);
    let n2 = note(Some(&exact), "d");
    assert_eq!(format_note(&n2), format!("**[ADMIN]** {}\n*by mod on d*", exact));
}

#[test]
fn multibyte_text_is_cut_on_a_character_boundary() {
    // 150 two-byte characters take exactly 300 bytes.
    let text = "é".repeat(151);
    let n = note(Some(&text), "d");
    assert!(note_text_cuttable(&n));
    assert_eq!(format_note(&n), format!("**[ADMIN]** {}...\n*by mod on d*", "é".repeat(150)));
    // With one ASCII letter first, byte 300 falls inside a character.
    let odd = format!("a{}", "é".repeat(151));
    let bad = note(Some(&odd), "d");
    assert!(!note_text_cuttable(&bad));
    assert!(!notes_cuttable(&vec![n, bad]));
}

#[test]
fn notes_sort_by_date_and_keep_ties_in_order() {
    let mut a = note(Some("a"), "2024-02-01");
    a.id = 1;
    let mut b = note(Some("b"), "2023-01-01");
    b.id = 2;
    let mut c = note(Some("c"), "2024-02-01");
    c.id = 3;
    let mut d = note(Some("d"), "2022-12-31");
    d.id = 4;
    let sorted = sort_notes_by_date(vec![a, b, c, d]);
    let ids: Vec<i64> = sorted.iter().map(|n| n.id).collect();
    assert_eq!(ids, vec![4, 2, 1, 3]);
}

#[test]
fn no_notes_no_embeds() {
    assert!(build_notes_embeds(&vec![], "someone", "PVP").is_empty());
}

#[test]
fn few_notes_fit_in_one_embed() {
    let notes = vec![note(Some("one"), "d1"), note(Some("two"), "d2")];
    let embeds = build_notes_embeds(&notes, "ckey1", "PVE");
    assert_eq!(embeds.len(), 1);
    assert_eq!(embeds[0].title, "Notes for ckey1 (2 total)");
    assert_eq!(
        embeds[0].description,
        "**[ADMIN]** one\n*by mod on d1*\n\n**[ADMIN]** two\n*by mod on d2*"
    );
    assert_eq!(embeds[0].footer.as_deref(), Some("Server: PVE"));
    assert_eq!(embeds[0].color, COLOR_INFO);
    assert!(embeds[0].fields.is_empty());
}

#[test]
fn many_notes_are_split_and_none_is_lost() {
    let notes: Vec<NoteResponse> =
        (0..40).map(|i| note(Some(&format!("{}{}", i, "z".repeat(250))), "2024")).collect();
    let formatted: Vec<String> = notes.iter().map(format_note).collect();
    let embeds = build_notes_embeds(&notes, "p", "PVP");
    assert!(embeds.len() > 1);
    assert_eq!(embeds[0].title, "Notes for p (40 total)");
    for e in &embeds[1..] {
        assert_eq!(e.title, "Notes for p (continued)");
    }
    for e in &embeds {
        assert!(e.description.len() <= 4000);
    }
    let joined: Vec<&str> = embeds.iter().map(|e| e.description.as_str()).collect();
    assert_eq!(joined.join("\n\n"), formatted.join("\n\n"));
}

#[test]
fn an_oversized_first_note_leaves_an_empty_first_embed() {
    let mut big = note(Some("t"), "d");
    big.noting_admin_ckey = Some("a".repeat(5000));
    let small = note(Some("s"), "d");
    let embeds = build_notes_embeds(&vec![big, small], "p", "PVP");
    assert_eq!(embeds.len(), 3);
    assert_eq!(embeds[0].description, "");
    assert_eq!(embeds[0].title, "Notes for p (2 total)");
    assert!(embeds[1].description.len() > 4000);
    assert_eq!(embeds[2].description, "**[ADMIN]** s\n*by mod on d*");
}
