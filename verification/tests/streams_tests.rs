//! The stream reconciliation tick against an in-memory store.
use keeper::store::Store;
use keeper::streams::{
    follow, load_live_session, parse_kick_url, plan_stream_probe, settle_stream_probe, unfollow,
    following, FollowOutcome, LiveSessionRecord, ProbeResult, SendOutcome, StreamAction,
    UnfollowOutcome,
};

fn fresh_store_for_stream_tests() -> Store {
    let db = redb::Database::builder()
        .create_with_backend(redb::backends::InMemoryBackend::new())
        .unwrap();
    Store::new(db)
}

fn live(token: &str, viewers: u32) -> ProbeResult {
    ProbeResult::Live {
        session_token: token.to_string(),
        viewer_count: viewers,
        category: Some("Games".to_string()),
        title: Some("hi".to_string()),
        thumbnail: None,
    }
}

#[test]
fn parse_kick_url_accepts_channel() {
    assert_eq!(parse_kick_url("https://kick.com/foo"), Some("foo".to_string()));
    assert_eq!(parse_kick_url("https://kick.com/foo/"), Some("foo".to_string()));
    assert_eq!(parse_kick_url("kick.com/bar"), Some("bar".to_string()));
    assert_eq!(parse_kick_url("https://kick.com/"), None);
    assert_eq!(parse_kick_url("https://example.com/foo"), None);
}

#[test]
fn follow_unsupported_url_changes_nothing() {
    let mut store = fresh_store_for_stream_tests();
    let out = follow(&mut store, "https://example.com/foo", 1, 2).unwrap();
    assert!(matches!(out, FollowOutcome::UnsupportedUrl));
    assert!(following(&store).unwrap().is_empty());
}

#[test]
fn follow_then_unfollow_round_trip() {
    let mut store = fresh_store_for_stream_tests();
    let out = follow(&mut store, "https://kick.com/foo", 11, 22).unwrap();
    match out {
        FollowOutcome::Followed(f) => {
            assert_eq!(f.channel_name, "foo");
            assert_eq!(f.platform, "kick");
            assert_eq!(f.user_id, 11);
            assert_eq!(f.channel_id, 22);
        }
        FollowOutcome::UnsupportedUrl => panic!("url should be supported"),
    }
    let listed = following(&store).unwrap();
    assert_eq!(listed.len(), 1);
    assert_eq!(listed[0].channel_name, "foo");
    let out = unfollow(&mut store, "https://kick.com/foo").unwrap();
    assert!(matches!(out, UnfollowOutcome::Unfollowed));
    assert!(following(&store).unwrap().is_empty());
}

/// The four-tick scenario: a live channel gets one message, a refresh
/// while the session token is unchanged, a new message on a new token,
/// and the record is dropped when the channel goes offline.
#[test]
fn stream_lifecycle_over_four_ticks() {
    let mut store = fresh_store_for_stream_tests();
    follow(&mut store, "https://kick.com/foo", 1, 2).unwrap();

    // Tick 1: live with token "abc", no record: post a fresh message M1.
    let rec = load_live_session(&store, "kick", "foo").unwrap();
    assert!(rec.is_none());
    let plan = plan_stream_probe(&rec, &live("abc", 10));
    assert_eq!(plan, StreamAction::Post);
    settle_stream_probe(&mut store, "kick", "foo", &plan, &SendOutcome::Sent(101), "abc").unwrap();

    // Tick 2: same token, more viewers: refresh M1 in place.
    let rec = load_live_session(&store, "kick", "foo").unwrap();
    let stored = rec.as_ref().expect("record should exist");
    assert_eq!(stored.message_id, 101);
    assert_eq!(stored.session_token, "abc");
    let plan = plan_stream_probe(&rec, &live("abc", 50));
    assert_eq!(plan, StreamAction::Refresh(101));
    settle_stream_probe(&mut store, "kick", "foo", &plan, &SendOutcome::EditOk, "abc").unwrap();
    let rec = load_live_session(&store, "kick", "foo").unwrap().unwrap();
    assert_eq!(rec.message_id, 101);

    // Tick 3: a new token means a new session: post M2, supersede M1.
    let rec = load_live_session(&store, "kick", "foo").unwrap();
    let plan = plan_stream_probe(&rec, &live("xyz", 5));
    assert_eq!(plan, StreamAction::Post);
    settle_stream_probe(&mut store, "kick", "foo", &plan, &SendOutcome::Sent(202), "xyz").unwrap();
    let rec = load_live_session(&store, "kick", "foo").unwrap().unwrap();
    assert_eq!(rec.message_id, 202);
    assert_eq!(rec.session_token, "xyz");

    // Tick 4: offline: the record is deleted; M2 stays in chat history.
    let rec = load_live_session(&store, "kick", "foo").unwrap();
    let plan = plan_stream_probe(&rec, &ProbeResult::Offline);
    assert_eq!(plan, StreamAction::ClearRecord);
    settle_stream_probe(&mut store, "kick", "foo", &plan, &SendOutcome::NotNeeded, "").unwrap();
    assert!(load_live_session(&store, "kick", "foo").unwrap().is_none());

    // A later live probe posts fresh rather than editing the deleted one.
    let rec = load_live_session(&store, "kick", "foo").unwrap();
    assert_eq!(plan_stream_probe(&rec, &live("new", 1)), StreamAction::Post);
}

#[test]
fn failed_edit_drops_the_record_for_next_tick() {
    let mut store = fresh_store_for_stream_tests();
    let plan = StreamAction::Post;
    settle_stream_probe(&mut store, "kick", "bar", &plan, &SendOutcome::Sent(7), "tok").unwrap();
    let rec = load_live_session(&store, "kick", "bar").unwrap();
    let plan = plan_stream_probe(&rec, &live("tok", 1));
    assert_eq!(plan, StreamAction::Refresh(7));
    settle_stream_probe(&mut store, "kick", "bar", &plan, &SendOutcome::EditFailed, "tok")
        .unwrap();
    assert!(load_live_session(&store, "kick", "bar").unwrap().is_none());
}

#[test]
fn session_record_codec_round_trip() {
    let rec = LiveSessionRecord {
        message_id: 123456789,
        session_token: "2024-01-01T00:00:00Z \"odd\\chars\"\n".to_string(),
    };
    let encoded = keeper::streams::encode_session(&rec);
    let back = keeper::streams::decode_session(encoded.as_str()).unwrap();
    assert_eq!(back.message_id, rec.message_id);
    assert_eq!(back.session_token, rec.session_token);
}

#[test]
fn follow_codec_round_trip() {
    let mut store = fresh_store_for_stream_tests();
    follow(&mut store, "https://kick.com/foo", 42, 43).unwrap();
    let listed = following(&store).unwrap();
    assert_eq!(listed.len(), 1);
    assert_eq!(listed[0].url, "https://kick.com/foo");
    assert_eq!(listed[0].user_id, 42);
    assert_eq!(listed[0].channel_id, 43);
}
