//! The recurring check-in campaign against an in-memory store.
use keeper::checkin::{
    check_in, due_campaigns, load_campaign, record_broadcast, save_campaign, start_campaign,
    stop_campaign, AydyState, CheckInOutcome, StartOutcome,
};
use keeper::store::Store;

fn fresh_store_for_checkin_tests() -> Store {
    let db = redb::Database::builder()
        .create_with_backend(redb::backends::InMemoryBackend::new())
        .unwrap();
    Store::new(db)
}

const DAY: i64 = 86400;

#[test]
fn broadcast_fires_when_and_only_when_a_day_elapsed() {
    let mut store = fresh_store_for_checkin_tests();
    let started_at = 1_000_000;
    let state = AydyState::new(7, Some(70), started_at);
    save_campaign(&mut store, &state).unwrap();

    // Less than a day since the start: nothing is due.
    assert!(due_campaigns(&store, started_at + DAY - 1).unwrap().is_empty());

    // Exactly a day: the campaign is due; record the broadcast.
    let due = due_campaigns(&store, started_at + DAY).unwrap();
    assert_eq!(due.len(), 1);
    let (key, st) = due.into_iter().next().unwrap();
    let st = record_broadcast(&mut store, key.as_str(), st, 555, started_at + DAY).unwrap();
    assert_eq!(st.message_id, Some(555));
    assert_eq!(st.last_sent, started_at + DAY);

    // Within a day of the broadcast it never fires again.
    assert!(due_campaigns(&store, started_at + DAY + 1).unwrap().is_empty());
    assert!(due_campaigns(&store, started_at + 2 * DAY - 1).unwrap().is_empty());
    assert_eq!(due_campaigns(&store, started_at + 2 * DAY).unwrap().len(), 1);
}

#[test]
fn non_responders_are_exactly_the_stale_users() {
    let now = 500_000;
    let mut state = AydyState::new(1, None, now);
    state.update_user_response(10, "ada".to_string(), now - 50 * 3600);
    state.update_user_response(20, "ben".to_string(), now - 10 * 3600);
    state.update_user_response(30, "cyn".to_string(), now - 49 * 3600);
    let stale = state.get_non_responders(48, now);
    let ids: Vec<u64> = stale.iter().map(|p| p.0).collect();
    assert_eq!(ids, vec![10, 30]);
}

#[test]
fn fresh_enrollment_is_never_a_non_responder() {
    let now = 900_000;
    let mut state = AydyState::new(1, None, now - 3 * DAY);
    state.update_user_response(10, "old".to_string(), now - 3 * DAY);
    state.update_user_response(99, "new".to_string(), now);
    let stale = state.get_non_responders(48, now);
    assert!(stale.iter().all(|p| p.0 != 99));
    let entry = state
        .enrolled_users
        .iter()
        .find(|p| p.0 == 99)
        .expect("the new user is enrolled");
    assert_eq!(entry.1.enrolled_at, now);
    assert_eq!(entry.1.last_response, now);
}

#[test]
fn check_in_enrolls_then_thanks() {
    let mut store = fresh_store_for_checkin_tests();
    let t0 = 100_000;

    // No campaign in the channel: the press does nothing.
    match check_in(&mut store, 5, 10, "ada".to_string(), t0).unwrap() {
        CheckInOutcome::NotRunning => {}
        _ => panic!("no campaign is running"),
    }

    let state = AydyState::new(5, None, t0);
    save_campaign(&mut store, &state).unwrap();

    // First press enrolls.
    match check_in(&mut store, 5, 10, "ada".to_string(), t0 + 60).unwrap() {
        CheckInOutcome::Welcomed(st) => {
            assert_eq!(st.enrolled_users.len(), 1);
            assert_eq!(st.enrolled_users[0].1.enrolled_at, t0 + 60);
        }
        _ => panic!("first press should enroll"),
    }

    // Second press refreshes the stamp and keeps the enrollment time.
    match check_in(&mut store, 5, 10, "ada may".to_string(), t0 + 120).unwrap() {
        CheckInOutcome::CheckedIn(st) => {
            assert_eq!(st.enrolled_users.len(), 1);
            assert_eq!(st.enrolled_users[0].1.enrolled_at, t0 + 60);
            assert_eq!(st.enrolled_users[0].1.last_response, t0 + 120);
            assert_eq!(st.enrolled_users[0].1.user_name, "ada may");
        }
        _ => panic!("second press should check in"),
    }

    // The updated roster was persisted.
    let loaded = load_campaign(&store, 5).unwrap().unwrap();
    assert_eq!(loaded.enrolled_users.len(), 1);
    assert_eq!(loaded.enrolled_users[0].1.last_response, t0 + 120);
}

#[test]
fn stop_campaign_reports_whether_one_ran() {
    let mut store = fresh_store_for_checkin_tests();
    assert_eq!(stop_campaign(&mut store, 9).unwrap(), false);
    save_campaign(&mut store, &AydyState::new(9, None, 1)).unwrap();
    assert_eq!(stop_campaign(&mut store, 9).unwrap(), true);
    assert!(load_campaign(&store, 9).unwrap().is_none());
}

#[test]
fn campaign_codec_round_trip_through_store() {
    let mut store = fresh_store_for_checkin_tests();
    let mut state = AydyState::new(77, Some(88), -12345);
    state.update_user_response(1, "a \"quoted\" name\twith\ttabs".to_string(), -1);
    state.update_user_response(2, "plain".to_string(), 42);
    save_campaign(&mut store, &state).unwrap();
    let loaded = load_campaign(&store, 77).unwrap().unwrap();
    assert_eq!(loaded.channel_id, 77);
    assert_eq!(loaded.guild_id, Some(88));
    assert_eq!(loaded.message_id, None);
    assert_eq!(loaded.last_sent, -12345);
    assert_eq!(loaded.enrolled_users.len(), 2);
    assert_eq!(loaded.enrolled_users[0].1.user_name, "a \"quoted\" name\twith\ttabs");
    assert_eq!(loaded.enrolled_users[1].0, 2);
}

#[test]
fn corrupt_campaign_record_is_surfaced() {
    let mut store = fresh_store_for_checkin_tests();
    store.write_entry("aydy", "aydy_3", "not a record").unwrap();
    assert!(check_in(&mut store, 3, 1, "x".to_string(), 0).is_err());
    assert!(due_campaigns(&store, 0).is_err());
}

#[test]
fn start_refuses_a_second_campaign_in_the_channel() {
    let mut store = fresh_store_for_checkin_tests();
    match start_campaign(&mut store, 12, Some(3), Some(900), 1_000).unwrap() {
        StartOutcome::Started(st) => {
            assert_eq!(st.channel_id, 12);
            assert_eq!(st.message_id, Some(900));
            assert_eq!(st.last_sent, 1_000);
            assert!(st.enrolled_users.is_empty());
        }
        StartOutcome::AlreadyRunning => panic!("nothing runs here yet"),
    }
    match start_campaign(&mut store, 12, Some(3), Some(901), 2_000).unwrap() {
        StartOutcome::AlreadyRunning => {}
        StartOutcome::Started(_) => panic!("the first campaign still runs"),
    }
    let loaded = load_campaign(&store, 12).unwrap().unwrap();
    assert_eq!(loaded.message_id, Some(900));
}
