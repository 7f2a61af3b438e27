//! Tests of the client: transport-error classification, the wire-frame
//! codec, key dispatch, text fields, and the reducer's task lifecycle.
use qu_chat::chat_room_client::{
    classify_transport, handle_result, handle_unauthorized, BaseRes, Error, URLs,
};
use qu_chat::events::{key_action, try_handle_text_events, Key, KeyPress};
use qu_chat::models::{Message, Room};
use qu_chat::state::{
    Action, App, AuthenticatedAction, SignedOutAction, State, TextFieldAction, Textfield,
};
use qu_chat::state_machine::{handle_action, new_signout, start_app, Effect};
use qu_chat::stream::{decode_frame, encode_frame};

fn msg(id: &str, room: &str) -> Message {
    Message {
        id: id.to_string(),
        content: format!("content {}", id),
        sender_id: "other".to_string(),
        room_id: room.to_string(),
        create_date: 7,
        sender_name: "Other".to_string(),
    }
}

fn room(id: &str, name: &str) -> Room {
    Room {
        id: id.to_string(),
        name: name.to_string(),
        creator_id: "c".to_string(),
        create_date: 0,
    }
}

fn key(code: Key) -> KeyPress {
    KeyPress { code, ctrl: false, alt: false }
}

fn ctrl(c: char) -> KeyPress {
    KeyPress { code: Key::Char(c), ctrl: true, alt: false }
}

#[test]
fn transport_classification() {
    assert!(matches!(classify_transport(true, true, true, "d"), Error::Decoding));
    assert!(matches!(classify_transport(false, true, true, "d"), Error::Unauthorized));
    assert!(matches!(classify_transport(false, false, true, "d"), Error::TimedOut));
    assert!(matches!(
        classify_transport(false, false, false, "weird"),
        Error::Other(s) if s == "weird"
    ));
    assert!(handle_unauthorized(&Error::Unauthorized));
    assert!(!handle_unauthorized(&Error::TimedOut));
}

#[test]
fn error_messages() {
    assert_eq!(Error::Unauthorized.to_message(), "Unauthorized");
    assert_eq!(Error::TimedOut.to_message(), "Timed out");
    assert_eq!(Error::Decoding.to_message(), "Unable to decode");
    assert_eq!(Error::Other("x".to_string()).to_message(), "Unknown Error x");
    assert_eq!(Error::Logical("boom".to_string()).to_message(), "boom");
}

#[test]
fn envelope_handling() {
    assert_eq!(handle_result(BaseRes::Data(5u8)).unwrap(), 5);
    assert!(matches!(
        handle_result::<u8>(BaseRes::Error("nope".to_string())),
        Err(Error::Logical(s)) if s == "nope"
    ));
}

#[test]
fn endpoint_addresses() {
    assert_eq!(URLs::base(), "http://127.0.0.1:8000");
    assert_eq!(URLs::register(), "http://127.0.0.1:8000/auth/register");
    assert_eq!(URLs::signin(), "http://127.0.0.1:8000/auth/signin");
    assert_eq!(URLs::rooms(), "http://127.0.0.1:8000/rooms");
    assert_eq!(URLs::messages("r1"), "http://127.0.0.1:8000/messages/events/r1");
    assert_eq!(URLs::last_messages("r1"), "http://127.0.0.1:8000/messages/r1");
    assert_eq!(URLs::send_messages(), "http://127.0.0.1:8000/messages/send");
    assert_eq!(URLs::whoami(), "http://127.0.0.1:8000/users/whoami");
    assert_eq!(URLs::signout(), "http://127.0.0.1:8000/auth/signout");
}

#[test]
fn frame_codec_round_trip() {
    let m = msg("m-1", "general");
    let frame = encode_frame(&m);
    let text = String::from_utf8(frame.clone()).unwrap();
    assert!(text.starts_with("data:{\"id\":\"m-1\""));
    assert!(text.ends_with("\n\n"));
    let back = decode_frame(&frame).expect("a fresh frame decodes");
    assert_eq!(back.id, m.id);
    assert_eq!(back.content, m.content);
    assert_eq!(back.sender_id, m.sender_id);
    assert_eq!(back.room_id, m.room_id);
    assert_eq!(back.create_date, m.create_date);
    assert_eq!(back.sender_name, m.sender_name);
}

#[test]
fn frame_codec_handcrafted_and_malformed() {
    let raw = b"data:{\"id\":\"m9\",\"content\":\"hi\",\"sender_id\":\"s\",\"room_id\":\"r\",\"create_date\":-3,\"sender_name\":\"N\"}\n\n";
    let m = decode_frame(raw).expect("a canonical frame decodes");
    assert_eq!(m.id, "m9");
    assert_eq!(m.content, "hi");
    assert_eq!(m.create_date, -3);

    // frames without the marker, or with broken payloads, are skipped
    assert!(decode_frame(b"event:ping\n\n").is_none());
    assert!(decode_frame(b"data:not json\n\n").is_none());
    assert!(decode_frame(b"data:{\"id\":\"m9\"}\n\n").is_none());
    assert!(decode_frame(b"").is_none());
}

#[test]
fn text_field_editing() {
    let mut tf = Textfield::new("message");
    tf.handle_action(&TextFieldAction::TextChanged('h'));
    tf.handle_action(&TextFieldAction::TextChanged('i'));
    assert_eq!(tf.text, "hi");
    tf.handle_action(&TextFieldAction::TextErased);
    assert_eq!(tf.text, "h");
    tf.handle_action(&TextFieldAction::TextErased);
    tf.handle_action(&TextFieldAction::TextErased);
    assert_eq!(tf.text, "");
    tf.handle_action(&TextFieldAction::TextChanged('x'));
    tf.handle_action(&TextFieldAction::TextAllErased);
    assert_eq!(tf.text, "");
}

#[test]
fn key_dispatch() {
    let (app, _) = start_app(None);
    // closing is always available
    assert!(matches!(key_action(&app, &ctrl('c')), Some(Action::Close)));
    // on the sign-in screen a plain `q` is text, not quitting
    assert!(matches!(
        key_action(&app, &key(Key::Char('q'))),
        Some(Action::SigneOut(SignedOutAction::Text(TextFieldAction::TextChanged('q'))))
    ));
    // where no screen consumes it, `q` quits
    let authed = start_app(Some("T".to_string())).0;
    assert!(matches!(key_action(&authed, &key(Key::Char('q'))), Some(Action::Close)));
    // the sign-in screen
    assert!(matches!(
        key_action(&app, &key(Key::Tab)),
        Some(Action::SigneOut(SignedOutAction::NextFocus))
    ));
    assert!(matches!(
        key_action(&app, &ctrl('s')),
        Some(Action::SigneOut(SignedOutAction::Signin))
    ));
    assert!(matches!(
        key_action(&app, &ctrl('r')),
        Some(Action::SigneOut(SignedOutAction::Register))
    ));
    // text edits
    assert!(matches!(
        try_handle_text_events(&key(Key::Char('a'))),
        Some(TextFieldAction::TextChanged('a'))
    ));
    assert!(matches!(
        try_handle_text_events(&key(Key::Backspace)),
        Some(TextFieldAction::TextErased)
    ));
    let alt_bs = KeyPress { code: Key::Backspace, ctrl: false, alt: true };
    assert!(matches!(
        try_handle_text_events(&alt_bs),
        Some(TextFieldAction::TextAllErased)
    ));
}

fn enter_authenticated(token: &str) -> App {
    let (mut app, _) = start_app(None);
    let effects = handle_action(
        Action::SigneOut(SignedOutAction::SignedIn(Ok(token.to_string()))),
        &mut app,
    );
    assert!(matches!(&effects[0], Effect::SpawnLoadRooms { token: t } if t == token));
    assert!(matches!(&effects[1], Effect::SpawnLoadProfile { token: t } if t == token));
    app
}

fn load_rooms(app: &mut App, rooms: Vec<Room>) {
    let effects = handle_action(
        Action::Authenticated(AuthenticatedAction::RoomsLoaded(Ok(rooms))),
        app,
    );
    assert_eq!(effects.len(), 2);
}

fn current_handles(app: &App) -> Vec<u64> {
    match &app.state {
        State::Authenticated(st) => st
            .current_room
            .as_ref()
            .map(|r| r.task_handles.clone())
            .unwrap_or_default(),
        _ => Vec::new(),
    }
}

fn current_room_id(app: &App) -> Option<String> {
    match &app.state {
        State::Authenticated(st) => st.current_room.as_ref().map(|r| r.id.clone()),
        _ => None,
    }
}

#[test]
fn task_lifecycle_on_room_switch() {
    let mut app = enter_authenticated("TOK");
    load_rooms(&mut app, vec![room("ra", "Room A"), room("rb", "Room B")]);

    // open room A: selection starts at A
    handle_action(Action::Authenticated(AuthenticatedAction::SelectNextRoom), &mut app);
    let effects = handle_action(Action::Authenticated(AuthenticatedAction::EnterRoom), &mut app);
    // no previous room: only the three enqueues
    assert_eq!(effects.len(), 3);
    let effects = handle_action(Action::Authenticated(AuthenticatedAction::SyncMessages), &mut app);
    assert_eq!(effects.len(), 1);
    let a_handles = current_handles(&app);
    assert_eq!(a_handles, vec![0, 1]);
    match &effects[0] {
        Effect::SpawnSyncMessages { room_id, stream_task, forward_task, .. } => {
            assert_eq!(room_id, "ra");
            assert_eq!((*stream_task, *forward_task), (0, 1));
        },
        _ => panic!("a sync spawns the stream/forwarder pair"),
    }

    // switch to room B: the old pair is cancelled before anything else
    handle_action(Action::Authenticated(AuthenticatedAction::SelectNextRoom), &mut app);
    let effects = handle_action(Action::Authenticated(AuthenticatedAction::EnterRoom), &mut app);
    assert_eq!(effects.len(), 4);
    assert!(matches!(&effects[0], Effect::CancelTasks { task_ids } if *task_ids == a_handles));
    assert_eq!(current_room_id(&app).unwrap(), "rb");
    assert_eq!(current_handles(&app), Vec::<u64>::new());

    let effects = handle_action(Action::Authenticated(AuthenticatedAction::SyncMessages), &mut app);
    let b_handles = current_handles(&app);
    // exactly one active pair, fresh handles never reused
    assert_eq!(b_handles, vec![2, 3]);
    assert!(a_handles.iter().all(|h| !b_handles.contains(h)));
    assert_eq!(effects.len(), 1);

    // leaving the room cancels the pair synchronously
    let effects = handle_action(Action::Authenticated(AuthenticatedAction::ExitRoom), &mut app);
    assert!(matches!(&effects[0], Effect::CancelTasks { task_ids } if *task_ids == b_handles));
    assert!(current_room_id(&app).is_none());
}

#[test]
fn messages_arrive_in_order_after_history() {
    let mut app = enter_authenticated("TOK");
    load_rooms(&mut app, vec![room("general", "General")]);
    handle_action(Action::Authenticated(AuthenticatedAction::SelectNextRoom), &mut app);
    handle_action(Action::Authenticated(AuthenticatedAction::EnterRoom), &mut app);

    handle_action(
        Action::Authenticated(AuthenticatedAction::PrevMessagesLoaded(Ok(vec![
            msg("m1", "general"),
            msg("m2", "general"),
        ]))),
        &mut app,
    );
    handle_action(
        Action::Authenticated(AuthenticatedAction::MessageChanged(msg("m3", "general"))),
        &mut app,
    );

    match &app.state {
        State::Authenticated(st) => {
            let ids: Vec<&str> = st
                .current_room
                .as_ref()
                .unwrap()
                .messages
                .iter()
                .map(|m| m.id.as_str())
                .collect();
            assert_eq!(ids, vec!["m1", "m2", "m3"]);
        },
        _ => panic!("still authenticated"),
    }
}

#[test]
fn forced_signout_cancels_tasks_and_deletes_the_token_file() {
    let mut app = enter_authenticated("TOK");
    load_rooms(&mut app, vec![room("ra", "A")]);
    handle_action(Action::Authenticated(AuthenticatedAction::SelectNextRoom), &mut app);
    handle_action(Action::Authenticated(AuthenticatedAction::EnterRoom), &mut app);
    handle_action(Action::Authenticated(AuthenticatedAction::SyncMessages), &mut app);
    let handles = current_handles(&app);

    let effects = new_signout(&mut app);
    assert!(matches!(&effects[0], Effect::CancelTasks { task_ids } if *task_ids == handles));
    assert!(matches!(&effects[1], Effect::DeleteTokenFile));
    assert!(matches!(app.state, State::SignedOut(_)));
}

#[test]
fn signout_completion_revokes_and_cleans_up() {
    let mut app = enter_authenticated("TOK");
    let effects = handle_action(
        Action::Authenticated(AuthenticatedAction::Signout),
        &mut app,
    );
    assert!(matches!(&effects[0], Effect::SpawnSignout { token } if token == "TOK"));
    let effects = handle_action(
        Action::Authenticated(AuthenticatedAction::SignoutCompleted(Ok(()))),
        &mut app,
    );
    assert!(matches!(effects.last().unwrap(), Effect::DeleteTokenFile));
    assert!(matches!(app.state, State::SignedOut(_)));
}

#[test]
fn error_banner_blocks_input_until_dismissed() {
    let mut app = enter_authenticated("TOK");
    handle_action(
        Action::Authenticated(AuthenticatedAction::RoomsLoaded(Err(Error::TimedOut))),
        &mut app,
    );
    assert_eq!(app.error.as_deref(), Some("Timed out"));

    // anything but dismissal is ignored
    let effects = handle_action(Action::Authenticated(AuthenticatedAction::LoadRooms), &mut app);
    assert!(effects.is_empty());
    assert!(app.error.is_some());

    handle_action(Action::CloseError, &mut app);
    assert!(app.error.is_none());
}

#[test]
fn loading_token_from_disk_goes_straight_to_authenticated() {
    let (app, effects) = start_app(Some("STORED".to_string()));
    match &app.state {
        State::Authenticated(st) => assert_eq!(st.token, "STORED"),
        _ => panic!("a stored token authenticates at startup"),
    }
    assert_eq!(effects.len(), 2);
}
