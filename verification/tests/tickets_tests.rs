//! The ticket workflow against an in-memory store.
use keeper::store::Store;
use keeper::tickets::{
    close, delete_ticket, force_close, generate_ticket_number, is_close_cancel_id,
    list_ticket_menus, load_active_ticket, load_ticket_menu, make_close_confirm_id,
    make_ticket_channel_name, make_ticket_create_id, make_ticket_delete_id,
    make_ticket_modal_id, open_ticket, parse_close_confirm_id, parse_ticket_create_id,
    parse_ticket_delete_id, parse_ticket_modal_id, save_ticket_menu, delete_ticket_menu,
    CloseDecision, DeleteOutcome, TicketMenu,
};

fn fresh_store_for_ticket_tests() -> Store {
    let db = redb::Database::builder()
        .create_with_backend(redb::backends::InMemoryBackend::new())
        .unwrap();
    Store::new(db)
}

const OWNER: u64 = 999;
const CREATOR: u64 = 123;

fn open_one(store: &mut Store, channel: u64) {
    open_ticket(store, channel, CREATOR, 1, generate_ticket_number(1_700_000_042)).unwrap();
}

#[test]
fn ticket_number_is_the_last_six_digits() {
    assert_eq!(generate_ticket_number(1_700_000_042), 42);
    assert_eq!(generate_ticket_number(999_999), 999_999);
    assert_eq!(generate_ticket_number(1_000_000), 0);
    assert_eq!(make_ticket_channel_name(42), "ticket-42");
}

#[test]
fn creator_close_succeeds_without_confirmation() {
    let mut store = fresh_store_for_ticket_tests();
    open_one(&mut store, 50);
    assert_eq!(close(&store, 50, CREATOR, OWNER).unwrap(), CloseDecision::CloseNow);
}

#[test]
fn owner_close_requires_confirmation() {
    let mut store = fresh_store_for_ticket_tests();
    open_one(&mut store, 51);
    assert_eq!(close(&store, 51, OWNER, OWNER).unwrap(), CloseDecision::RequireConfirm);
}

#[test]
fn stranger_close_is_rejected() {
    let mut store = fresh_store_for_ticket_tests();
    open_one(&mut store, 52);
    assert_eq!(close(&store, 52, 777, OWNER).unwrap(), CloseDecision::Reject);
    assert!(load_active_ticket(&store, 52).unwrap().is_some());
}

#[test]
fn force_close_by_non_owner_is_rejected_without_state_change() {
    let mut store = fresh_store_for_ticket_tests();
    open_one(&mut store, 53);
    assert_eq!(force_close(&store, 53, CREATOR, OWNER).unwrap(), CloseDecision::Reject);
    assert!(load_active_ticket(&store, 53).unwrap().is_some());
    assert_eq!(force_close(&store, 53, OWNER, OWNER).unwrap(), CloseDecision::CloseNow);
}

#[test]
fn close_outside_a_ticket_channel_is_not_a_ticket() {
    let store = fresh_store_for_ticket_tests();
    assert_eq!(close(&store, 54, CREATOR, OWNER).unwrap(), CloseDecision::NotATicket);
    assert_eq!(force_close(&store, 54, OWNER, OWNER).unwrap(), CloseDecision::NotATicket);
}

#[test]
fn only_the_owner_deletes_the_ticket_record() {
    let mut store = fresh_store_for_ticket_tests();
    open_one(&mut store, 55);
    assert_eq!(
        delete_ticket(&mut store, 55, CREATOR, OWNER).unwrap(),
        DeleteOutcome::Rejected
    );
    assert!(load_active_ticket(&store, 55).unwrap().is_some());
    assert_eq!(delete_ticket(&mut store, 55, OWNER, OWNER).unwrap(), DeleteOutcome::Deleted);
    assert!(load_active_ticket(&store, 55).unwrap().is_none());
}

#[test]
fn ticket_menu_codec_round_trip_through_store() {
    let mut store = fresh_store_for_ticket_tests();
    let mut menu = TicketMenu::new(
        "menu-1".to_string(),
        "111".to_string(),
        "222".to_string(),
        "333".to_string(),
    );
    menu.embed_config.footer_text = Some("be nice".to_string());
    menu.button_config.label = "Open a ticket".to_string();
    menu.modal_config.title_field.placeholder = None;
    save_ticket_menu(&mut store, &menu).unwrap();
    let loaded = load_ticket_menu(&store, "menu-1").unwrap().unwrap();
    assert_eq!(loaded.id, "menu-1");
    assert_eq!(loaded.channel_id, "111");
    assert_eq!(loaded.guild_id, "222");
    assert_eq!(loaded.category_id, "333");
    assert_eq!(loaded.embed_config.footer_text, Some("be nice".to_string()));
    assert_eq!(loaded.button_config.label, "Open a ticket");
    assert_eq!(loaded.modal_config.title_field.placeholder, None);
    assert_eq!(loaded.message_id, None);
}

#[test]
fn menu_listing_and_deletion() {
    let mut store = fresh_store_for_ticket_tests();
    let a = TicketMenu::new("a".to_string(), "1".to_string(), "2".to_string(), "3".to_string());
    let b = TicketMenu::new("b".to_string(), "4".to_string(), "5".to_string(), "6".to_string());
    save_ticket_menu(&mut store, &a).unwrap();
    save_ticket_menu(&mut store, &b).unwrap();
    assert_eq!(list_ticket_menus(&store).unwrap().len(), 2);
    delete_ticket_menu(&mut store, "a").unwrap();
    assert_eq!(list_ticket_menus(&store).unwrap().len(), 1);
    assert!(load_ticket_menu(&store, "a").unwrap().is_none());
}

#[test]
fn corrupt_menu_record_is_surfaced() {
    let mut store = fresh_store_for_ticket_tests();
    store.write_entry("tickets", "bad", "{oops").unwrap();
    assert!(load_ticket_menu(&store, "bad").is_err());
    assert_eq!(list_ticket_menus(&store).unwrap().len(), 0);
}

#[test]
fn component_ids_round_trip() {
    assert_eq!(make_ticket_create_id("support"), "ticket_create_support");
    assert_eq!(
        parse_ticket_create_id("ticket_create_support"),
        Some("support".to_string())
    );
    assert_eq!(parse_ticket_create_id("papers_role_1"), None);
    assert_eq!(
        parse_ticket_modal_id(make_ticket_modal_id("support").as_str()),
        Some("support".to_string())
    );
    assert_eq!(make_ticket_delete_id(900), "ticket_delete_900");
    assert_eq!(parse_ticket_delete_id("ticket_delete_900"), Some(900));
    assert_eq!(parse_ticket_delete_id("ticket_delete_12x"), None);
    assert_eq!(
        parse_close_confirm_id(make_close_confirm_id(901).as_str()),
        Some(901)
    );
    assert!(is_close_cancel_id("ticket_close_cancel_901"));
    assert!(!is_close_cancel_id("ticket_close_confirm_901"));
}
