//! Role-button panels against an in-memory store.
use keeper::papers::{
    delete_papers_state, load_papers_state_by_channel, make_papers_role_id, parse_hex_color,
    parse_papers_role_id, prune_apply, prune_scan, save_papers_state, AddLinkOutcome, ButtonStyle,
    ButtonType, PapersState,
};
use keeper::store::Store;

fn fresh_store_for_paper_tests() -> Store {
    let db = redb::Database::builder()
        .create_with_backend(redb::backends::InMemoryBackend::new())
        .unwrap();
    Store::new(db)
}

fn panel_with_buttons() -> PapersState {
    let mut state = PapersState::new(1000, 2000, Some(3000));
    assert!(state.add_role_button("alpha".to_string(), 11));
    assert!(state.add_role_button("beta".to_string(), 22));
    let out = state.add_link_button("docs".to_string(), "https://example.com/docs".to_string());
    assert_eq!(out, AddLinkOutcome::Added);
    state
}

#[test]
fn saving_and_reloading_keeps_buttons_and_order() {
    let mut store = fresh_store_for_paper_tests();
    let state = panel_with_buttons();
    save_papers_state(&mut store, &state).unwrap();
    let loaded = load_papers_state_by_channel(&mut store, 1000).unwrap().unwrap();
    assert_eq!(loaded.buttons.len(), 3);
    assert_eq!(loaded.buttons[0].label, "alpha");
    assert_eq!(loaded.buttons[1].label, "beta");
    assert_eq!(loaded.buttons[2].label, "docs");
    assert!(matches!(loaded.buttons[0].button_type, ButtonType::Role { role_id: 11 }));
    match &loaded.buttons[2].button_type {
        ButtonType::Link { url } => assert_eq!(url, "https://example.com/docs"),
        ButtonType::Role { .. } => panic!("third button is a link"),
    }
    assert_eq!(loaded.message_id, 2000);
    assert_eq!(loaded.guild_id, Some(3000));
}

#[test]
fn deleting_a_button_shifts_later_indices_down() {
    let mut state = panel_with_buttons();
    let removed = state.remove_button("beta").unwrap();
    assert_eq!(removed, (1, "beta".to_string()));
    assert_eq!(state.buttons.len(), 2);
    assert_eq!(state.buttons[0].label, "alpha");
    assert_eq!(state.buttons[1].label, "docs");
    // The removed label no longer resolves; the survivors moved down.
    assert_eq!(state.find_button_by_identifier("beta"), None);
    assert_eq!(state.find_button_by_identifier("docs"), Some(1));
}

#[test]
fn identifier_resolves_as_index_or_label() {
    let state = panel_with_buttons();
    assert_eq!(state.find_button_by_identifier("0"), Some(0));
    assert_eq!(state.find_button_by_identifier("2"), Some(2));
    assert_eq!(state.find_button_by_identifier("3"), None);
    assert_eq!(state.find_button_by_identifier("beta"), Some(1));
    assert_eq!(state.find_button_by_identifier("missing"), None);
}

#[test]
fn duplicate_labels_and_bad_urls_are_rejected() {
    let mut state = panel_with_buttons();
    assert!(!state.add_role_button("alpha".to_string(), 99));
    assert_eq!(state.buttons.len(), 3);
    assert_eq!(
        state.add_link_button("alpha".to_string(), "https://x".to_string()),
        AddLinkOutcome::DuplicateLabel
    );
    assert_eq!(
        state.add_link_button("ftp".to_string(), "ftp://example.com".to_string()),
        AddLinkOutcome::InvalidUrl
    );
    assert_eq!(state.buttons.len(), 3);
}

#[test]
fn button_edits_change_only_what_was_given() {
    let mut state = panel_with_buttons();
    state.apply_button_edit(1, None, Some(ButtonStyle::Danger), Some("🔥".to_string()));
    assert_eq!(state.buttons[1].label, "beta");
    assert_eq!(state.buttons[1].style, ButtonStyle::Danger);
    assert_eq!(state.buttons[1].emoji, Some("🔥".to_string()));
    state.apply_button_edit(1, Some("gamma".to_string()), None, None);
    assert_eq!(state.buttons[1].label, "gamma");
    assert_eq!(state.buttons[1].style, ButtonStyle::Danger);
    assert_eq!(state.buttons[1].emoji, None);
}

#[test]
fn embed_edits_round_trip_through_store() {
    let mut store = fresh_store_for_paper_tests();
    let mut state = PapersState::new(10, 20, None);
    state.set_author(Some("the author".to_string()), None);
    state.set_body(
        Some("Roles".to_string()),
        Some("pick one".to_string()),
        None,
        Some(0xFF5733),
        Some("footer".to_string()),
    );
    state.set_images(Some("https://img".to_string()), None, None, None);
    save_papers_state(&mut store, &state).unwrap();
    let loaded = load_papers_state_by_channel(&mut store, 10).unwrap().unwrap();
    assert_eq!(loaded.embed_config.author_name, Some("the author".to_string()));
    assert_eq!(loaded.embed_config.title, Some("Roles".to_string()));
    assert_eq!(loaded.embed_config.color, Some(0xFF5733));
    assert_eq!(loaded.embed_config.footer_text, Some("footer".to_string()));
    assert_eq!(loaded.embed_config.image_url, Some("https://img".to_string()));
    assert_eq!(loaded.embed_config.thumbnail_url, None);
}

#[test]
fn prior_schema_panel_is_upgraded_on_load() {
    let mut store = fresh_store_for_paper_tests();
    // Build the prior on-disk shape from the current one: the old button
    // carried a bare name and role id instead of a labelled action.
    let mut state = PapersState::new(600, 700, None);
    assert!(state.add_role_button("pick".to_string(), 42));
    let current = keeper::papers::encode_papers(&state);
    let old = current.replace(
        "{\"label\":\"pick\",\"button_type\":{\"role\":42},\"style\":\"Primary\",\"emoji\":null}",
        "{\"name\":\"pick\",\"role_id\":42,\"style\":\"Primary\",\"emoji\":null}",
    );
    assert_ne!(current, old);
    store.write_entry("papers", "600_700", old.as_str()).unwrap();

    let loaded = load_papers_state_by_channel(&mut store, 600).unwrap().unwrap();
    assert_eq!(loaded.buttons.len(), 1);
    assert_eq!(loaded.buttons[0].label, "pick");
    assert!(matches!(loaded.buttons[0].button_type, ButtonType::Role { role_id: 42 }));

    // The upgrade was persisted: the stored bytes are now current-schema.
    let stored = store.read_entry("papers", "600_700").unwrap().unwrap();
    assert_eq!(stored, current);
}

#[test]
fn prune_removes_exactly_the_given_keys() {
    let mut store = fresh_store_for_paper_tests();
    let a = PapersState::new(1, 10, None);
    let b = PapersState::new(2, 20, None);
    save_papers_state(&mut store, &a).unwrap();
    save_papers_state(&mut store, &b).unwrap();
    store.write_entry("papers", "corrupt_key", "###").unwrap();

    let (valid, corrupt) = prune_scan(&store).unwrap();
    assert_eq!(valid.len(), 2);
    assert_eq!(corrupt, vec!["corrupt_key".to_string()]);

    let removed = prune_apply(&mut store, &corrupt).unwrap();
    assert_eq!(removed, 1);
    assert_eq!(store.read_entry("papers", "corrupt_key").unwrap(), None);
    assert!(load_papers_state_by_channel(&mut store, 1).unwrap().is_some());
    assert!(load_papers_state_by_channel(&mut store, 2).unwrap().is_some());
}

#[test]
fn stop_deletes_the_panel_record() {
    let mut store = fresh_store_for_paper_tests();
    let state = PapersState::new(5, 6, None);
    save_papers_state(&mut store, &state).unwrap();
    delete_papers_state(&mut store, 5, 6).unwrap();
    assert!(load_papers_state_by_channel(&mut store, 5).unwrap().is_none());
}

#[test]
fn role_button_component_ids_round_trip() {
    let id = make_papers_role_id(424242);
    assert_eq!(id, "papers_role_424242");
    assert_eq!(parse_papers_role_id(id.as_str()), Some(424242));
    assert_eq!(parse_papers_role_id("papers_role_12x"), None);
    assert_eq!(parse_papers_role_id("something_else"), None);
}

#[test]
fn button_styles_parse_and_print() {
    assert_eq!(ButtonStyle::from_str("PRIMARY"), Some(ButtonStyle::Primary));
    assert_eq!(ButtonStyle::from_str("secondary"), Some(ButtonStyle::Secondary));
    assert_eq!(ButtonStyle::from_str("Success"), Some(ButtonStyle::Success));
    assert_eq!(ButtonStyle::from_str("danger"), Some(ButtonStyle::Danger));
    assert_eq!(ButtonStyle::from_str("link"), None);
    assert_eq!(ButtonStyle::Danger.as_str(), "Danger");
}

#[test]
fn labels_with_escapes_survive_the_codec() {
    let mut store = fresh_store_for_paper_tests();
    let mut state = PapersState::new(31, 32, None);
    assert!(state.add_role_button("weird \"label\"\\with\nstuff".to_string(), 1));
    save_papers_state(&mut store, &state).unwrap();
    let loaded = load_papers_state_by_channel(&mut store, 31).unwrap().unwrap();
    assert_eq!(loaded.buttons[0].label, "weird \"label\"\\with\nstuff");
}

#[test]
fn prior_schema_panel_without_style_or_emoji_is_upgraded() {
    let mut store = fresh_store_for_paper_tests();
    // The oldest records predate the style and emoji fields entirely.
    let mut base = PapersState::new(610, 710, None);
    assert!(base.add_role_button("pick".to_string(), 42));
    let current = keeper::papers::encode_papers(&base);
    let bare = current.replace(
        "{\"label\":\"pick\",\"button_type\":{\"role\":42},\"style\":\"Primary\",\"emoji\":null}",
        "{\"name\":\"pick\",\"role_id\":42}",
    );
    assert_ne!(current, bare);
    store.write_entry("papers", "610_710", bare.as_str()).unwrap();

    let loaded = load_papers_state_by_channel(&mut store, 610).unwrap().unwrap();
    assert_eq!(loaded.buttons.len(), 1);
    assert_eq!(loaded.buttons[0].label, "pick");
    assert!(matches!(loaded.buttons[0].button_type, ButtonType::Role { role_id: 42 }));
    assert_eq!(loaded.buttons[0].style, ButtonStyle::Primary);
    assert_eq!(loaded.buttons[0].emoji, None);
    // The upgrade was persisted in the current schema.
    let stored = store.read_entry("papers", "610_710").unwrap().unwrap();
    assert_eq!(stored, current);
}

#[test]
fn prior_schema_panel_with_style_only_is_upgraded() {
    let mut store = fresh_store_for_paper_tests();
    let mut base = PapersState::new(620, 720, None);
    assert!(base.add_role_button("pick".to_string(), 7));
    base.apply_button_edit(0, None, Some(ButtonStyle::Danger), None);
    let current = keeper::papers::encode_papers(&base);
    let styled = current.replace(
        "{\"label\":\"pick\",\"button_type\":{\"role\":7},\"style\":\"Danger\",\"emoji\":null}",
        "{\"name\":\"pick\",\"role_id\":7,\"style\":\"Danger\"}",
    );
    assert_ne!(current, styled);
    store.write_entry("papers", "620_720", styled.as_str()).unwrap();

    let loaded = load_papers_state_by_channel(&mut store, 620).unwrap().unwrap();
    assert_eq!(loaded.buttons[0].style, ButtonStyle::Danger);
    assert_eq!(loaded.buttons[0].emoji, None);
}

#[test]
fn link_buttons_keep_their_style_through_edits() {
    let mut state = panel_with_buttons();
    state.apply_button_edit(2, Some("guide".to_string()), Some(ButtonStyle::Danger), None);
    assert_eq!(state.buttons[2].label, "guide");
    assert_eq!(state.buttons[2].style, ButtonStyle::Primary);
    state.apply_button_edit(0, None, Some(ButtonStyle::Danger), None);
    assert_eq!(state.buttons[0].style, ButtonStyle::Danger);
}

#[test]
fn hex_colors_parse_like_the_body_command() {
    assert_eq!(parse_hex_color("FF5733"), Some(0xFF5733));
    assert_eq!(parse_hex_color("#FF5733"), Some(0xFF5733));
    assert_eq!(parse_hex_color("##ff5733"), Some(0xFF5733));
    assert_eq!(parse_hex_color("#0"), Some(0));
    assert_eq!(parse_hex_color("FFFFFFFF"), Some(0xFFFFFFFF));
    assert_eq!(parse_hex_color("100000000"), None);
    assert_eq!(parse_hex_color(""), None);
    assert_eq!(parse_hex_color("#"), None);
    assert_eq!(parse_hex_color("#xyz"), None);
}
