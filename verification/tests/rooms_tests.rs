//! Tests of the room logic: unread computation, the last-seen upsert,
//! the state-change stream filter, and the online-status mailbox.
use qu_chat::base::{Error, RoomChange, Rx, Tx};
use qu_chat::hub::RecvOutcome;
use qu_chat::models::{CreateRoomParam, Message, SendMessageParams};
use qu_chat::authentication::UserId;
use qu_chat::rooms::{
    insert_online_user, insert_room_outcome, new_room, remove_online_user, rooms_state_outcome,
    rooms_state_rows, rooms_status, state_stream_step, update_room_state_outcome,
    update_room_state_plan, watches_room, RoomSeenPlan, RoomSeenRecord, RoomsStatus,
    StateStreamStep,
};

#[test]
fn unread_flag_cases() {
    let seen = vec![
        ("r1".to_string(), Some(100i64)),
        ("r2".to_string(), None),
    ];
    let latest = vec![
        ("r1".to_string(), 150i64), // newer than last seen: unread
        ("r2".to_string(), 1i64),   // null last-seen counts as zero: unread
        ("r3".to_string(), 1i64),   // no record at all: always unread
    ];
    let states = rooms_state_rows(&seen, &latest);
    assert_eq!(states.len(), 3);
    assert_eq!(states[0].room_id, "r1");
    assert!(states[0].has_unread);
    assert!(states[1].has_unread);
    assert!(states[2].has_unread);

    // seen after the latest message: read
    let seen = vec![("r1".to_string(), Some(200i64))];
    let latest = vec![("r1".to_string(), 150i64)];
    let states = rooms_state_rows(&seen, &latest);
    assert!(!states[0].has_unread);

    // seen exactly at the latest message: read
    let seen = vec![("r1".to_string(), Some(150i64))];
    let latest = vec![("r1".to_string(), 150i64)];
    let states = rooms_state_rows(&seen, &latest);
    assert!(!states[0].has_unread);
}

#[test]
fn own_messages_never_feed_the_unread_rows() {
    // the latest-from-others rows exclude the caller's messages by
    // construction; a room whose only activity is the caller's own
    // message yields no row at all, hence no unread mark
    let seen = vec![("r1".to_string(), Some(100i64))];
    let latest: Vec<(String, i64)> = Vec::new();
    let states = rooms_state_rows(&seen, &latest);
    assert!(states.is_empty());
}

#[test]
fn rooms_state_outcome_cases() {
    let seen = vec![("r1".to_string(), Some(1i64))];
    let latest = vec![("r1".to_string(), 2i64)];
    let ok = rooms_state_outcome(Some(seen), Some(latest)).unwrap();
    assert_eq!(ok.data.len(), 1);
    assert!(ok.data[0].has_unread);

    let r = rooms_state_outcome(None, Some(vec![]));
    assert!(matches!(r, Err(Error::Logical(se)) if se.msg == "Unable to get room states"));
    let r = rooms_state_outcome(Some(vec![]), None);
    assert!(matches!(r, Err(Error::Logical(se)) if se.msg == "Unable to get room states"));
}

#[test]
fn upsert_plan_and_outcome() {
    let existing = RoomSeenRecord {
        id: "row-1".to_string(),
        user_id: "u".to_string(),
        room_id: "r".to_string(),
        last_seen: Some(3),
    };
    match update_room_state_plan(Some(existing)) {
        RoomSeenPlan::UpdateExisting { id } => assert_eq!(id, "row-1"),
        _ => panic!("an existing row is updated in place"),
    }
    match update_room_state_plan(None) {
        RoomSeenPlan::InsertNew { id } => assert_eq!(id.len(), 36),
        _ => panic!("a missing row is inserted fresh"),
    }

    let ok = update_room_state_outcome(true).unwrap();
    assert_eq!(ok.data, "Successfully set state");
    let err = update_room_state_outcome(false);
    assert!(matches!(err, Err(Error::Logical(se)) if se.msg == "Unable to set state"));
}

#[test]
fn state_stream_filter_cases() {
    let watched = vec!["a".to_string(), "b".to_string()];
    assert!(watches_room(&watched, "a"));
    assert!(!watches_room(&watched, "c"));

    let event_in = RecvOutcome::Event(RoomChange {
        message: Message {
            id: "m".to_string(),
            content: "x".to_string(),
            sender_id: "s".to_string(),
            room_id: "b".to_string(),
            create_date: 0,
            sender_name: "S".to_string(),
        },
    });
    assert!(matches!(
        state_stream_step(event_in, &watched),
        StateStreamStep::Notify
    ));
    let event_out = RecvOutcome::Event(RoomChange {
        message: Message {
            id: "m".to_string(),
            content: "x".to_string(),
            sender_id: "s".to_string(),
            room_id: "c".to_string(),
            create_date: 0,
            sender_name: "S".to_string(),
        },
    });
    assert!(matches!(
        state_stream_step(event_out, &watched),
        StateStreamStep::Skip
    ));
    assert!(matches!(
        state_stream_step(RecvOutcome::Lagged, &watched),
        StateStreamStep::Skip
    ));
    assert!(matches!(
        state_stream_step(RecvOutcome::Closed, &watched),
        StateStreamStep::Stop
    ));
}

#[test]
fn room_creation() {
    let user = UserId { id: "creator".to_string(), token: "t".to_string() };
    let room = new_room(&CreateRoomParam { name: "general".to_string() }, &user);
    assert_eq!(room.name, "general");
    assert_eq!(room.creator_id, "creator");
    assert_eq!(room.id.len(), 36);

    let ok = insert_room_outcome(true, room).unwrap();
    assert_eq!(ok.data.name, "general");
    let user2 = UserId { id: "c".to_string(), token: "t".to_string() };
    let room2 = new_room(&CreateRoomParam { name: "x".to_string() }, &user2);
    let err = insert_room_outcome(false, room2);
    assert!(matches!(err, Err(Error::Logical(se)) if se.msg == "Failed to create room"));
}

#[test]
fn online_status_mailbox() {
    let (tx, rx) = flume::bounded::<RoomsStatus>(32);
    let tx = Tx(tx);
    let rx = Rx(rx);

    insert_online_user("u1".to_string(), &rx, &tx);
    insert_online_user("u2".to_string(), &rx, &tx);
    let status = rooms_status(&rx);
    assert_eq!(status.online_users, vec!["u1".to_string(), "u2".to_string()]);

    // post it back so the next reader sees it, then remove one user
    let (tx2, rx2) = flume::bounded::<RoomsStatus>(32);
    let tx2 = Tx(tx2);
    let rx2 = Rx(rx2);
    insert_online_user("a".to_string(), &rx2, &tx2);
    insert_online_user("b".to_string(), &rx2, &tx2);
    remove_online_user("a", &rx2, &tx2);
    let status = rooms_status(&rx2);
    assert_eq!(status.online_users, vec!["b".to_string()]);

    // removing an unknown user changes nothing
    let mut st = RoomsStatus::new();
    st.add_user("x".to_string());
    st.remove_user("missing");
    assert_eq!(st.online_users, vec!["x".to_string()]);
}

#[test]
fn send_params_are_plain_values() {
    let p = SendMessageParams { text: "t".to_string(), room_id: "r".to_string() };
    assert_eq!(p.text, "t");
    assert_eq!(p.room_id, "r");
}
