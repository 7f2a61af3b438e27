//! An end-to-end scenario across the server and client cores: sign in,
//! open a room, merge history with a concurrently sent live message, and
//! sign out, after which the token is dead.
use qu_chat::authentication::{authenticate, new_user_record, signin, signout, ApiKeyError};
use qu_chat::hub::{stream_step, BroadcastHub, RecvOutcome, StreamStep};
use qu_chat::message::send;
use qu_chat::models::{Message, RegisterParams, SendMessageParams, SignInParams};
use qu_chat::revocation::RevocationStore;
use qu_chat::state::{Action, App, AuthenticatedAction, SignedOutAction, State};
use qu_chat::state_machine::{handle_action, start_app, Effect};
use qu_chat::stream::{decode_frame, encode_frame};
use qu_chat::models::Room;

const KEY: &[u8] = b"process-secret";

fn history_message(id: &str) -> Message {
    Message {
        id: id.to_string(),
        content: format!("old {}", id),
        sender_id: "someone".to_string(),
        room_id: "general".to_string(),
        create_date: 1,
        sender_name: "Someone".to_string(),
    }
}

fn message_ids(app: &App) -> Vec<String> {
    match &app.state {
        State::Authenticated(st) => st
            .current_room
            .as_ref()
            .unwrap()
            .messages
            .iter()
            .map(|m| m.id.clone())
            .collect(),
        _ => Vec::new(),
    }
}

#[test]
fn sign_in_stream_merge_and_sign_out() {
    // --- the server's long-lived state
    let mut store = RevocationStore::new();
    let mut hub = BroadcastHub::new(1024);

    // --- the user signs in and receives a token
    let account = new_user_record(&RegisterParams {
        username: "ada".to_string(),
        password: "pw".to_string(),
    });
    let account_id = account.id.clone();
    let response = signin(
        Some(account),
        &SignInParams { username: "ada".to_string(), password: "pw".to_string() },
        KEY,
    )
    .expect("credentials accepted");
    let tok = response.data.token;

    // --- the client authenticates and opens the room "general"
    let (mut app, _) = start_app(None);
    handle_action(Action::SigneOut(SignedOutAction::SignedIn(Ok(tok.clone()))), &mut app);
    handle_action(
        Action::Authenticated(AuthenticatedAction::RoomsLoaded(Ok(vec![Room {
            id: "general".to_string(),
            name: "General".to_string(),
            creator_id: "x".to_string(),
            create_date: 0,
        }]))),
        &mut app,
    );
    handle_action(Action::Authenticated(AuthenticatedAction::SelectNextRoom), &mut app);
    handle_action(Action::Authenticated(AuthenticatedAction::EnterRoom), &mut app);
    handle_action(Action::Authenticated(AuthenticatedAction::SyncMessages), &mut app);

    // the server side of the room stream: a hub subscription filtered on
    // the room id
    let sub = hub.subscribe();

    // --- the history page arrives
    handle_action(
        Action::Authenticated(AuthenticatedAction::PrevMessagesLoaded(Ok(vec![
            history_message("m1"),
            history_message("m2"),
        ]))),
        &mut app,
    );

    // --- another user's send is persisted and published
    let header = format!("Bearer {}", tok);
    let sender = authenticate(Some(&header), &store, KEY).expect("token passes the guard");
    assert_eq!(sender.id, account_id);
    let sent = send(
        &SendMessageParams { text: "hello all".to_string(), room_id: "general".to_string() },
        &sender,
        true,
        true,
        Some("Ada".to_string()),
        &mut hub,
    )
    .expect("the send pipeline succeeds");
    let m3_id = sent.data;

    // --- the room stream emits the event, the client decodes the frame
    let received = hub.try_next(sub).expect("the event was fanned out");
    let frame = match stream_step(RecvOutcome::Event(received), "general") {
        StreamStep::Emit(m) => encode_frame(&m),
        _ => panic!("an event for the open room is emitted"),
    };
    let live = decode_frame(&frame).expect("the pushed frame decodes");
    handle_action(
        Action::Authenticated(AuthenticatedAction::MessageChanged(live)),
        &mut app,
    );

    // --- the message sequence is history then the live message, in order
    assert_eq!(message_ids(&app), vec!["m1".to_string(), "m2".to_string(), m3_id]);

    // --- sign-out revokes the token; a later whoami-style check fails
    let user = authenticate(Some(&header), &store, KEY).expect("still valid before sign-out");
    signout(&mut store, &user).expect("sign-out succeeds");
    assert!(matches!(
        authenticate(Some(&header), &store, KEY),
        Err(ApiKeyError::Expired)
    ));

    // --- the client handles the completion: tasks die, the token file goes
    let effects = handle_action(
        Action::Authenticated(AuthenticatedAction::SignoutCompleted(Ok(()))),
        &mut app,
    );
    assert!(matches!(effects.last().unwrap(), Effect::DeleteTokenFile));
    assert!(matches!(app.state, State::SignedOut(_)));
}
