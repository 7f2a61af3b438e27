//! The client's reducer: every action's effect on the application state,
//! and the background work it requests. The reducer performs no I/O
//! itself: it returns the effects (network calls to start, tasks to
//! cancel, actions to enqueue) and the surrounding loop carries them out
//! in order.
//!
//! Task lifecycle: background tasks are named by fresh numeric handles
//! drawn from `App::next_task_id`, which never decreases, so a handle is
//! never reused. Whenever a room is left, switched, or resynchronized,
//! the effects cancel the old task pair before anything new is spawned.
use crate::chat_room_client::Error;
use crate::models::{Message, Room, RoomState, UserProfile};
use crate::state::{
    Action, App, AuthenticatedAction, AuthenticatedState, CreateRoomState, CurrentRoomState,
    SignedOutAction, SignedOutState, State, TextFieldAction, Textfield,
};
use vstd::prelude::*;

verus! {

/// Work the main loop must carry out after a reduction, in order.
#[derive(Debug)]
pub enum Effect {
    SpawnSignin { username: String, password: String },
    SpawnRegister { username: String, password: String },
    SpawnSendMessage { token: String, text: String, room_id: String },
    SpawnLoadRooms { token: String },
    SpawnLoadProfile { token: String },
    SpawnSignout { token: String },
    SpawnCreateRoom { token: String, name: String },
    SpawnLoadPrevMessages { token: String, room_id: String },
    SpawnSyncMessages { token: String, room_id: String, stream_task: u64, forward_task: u64 },
    SpawnListenRoomStates { token: String, room_ids: Vec<String> },
    SpawnUpdateRoomStates { token: String, room_ids: Vec<String> },
    SpawnMarkRoomSeen { token: String, room_id: String },
    CancelTasks { task_ids: Vec<u64> },
    Enqueue(Action),
    DeleteTokenFile,
}

/// Every handle owned by the open room (if any) was drawn before
/// `next_task_id`: fresh handles can never collide with them.
pub open spec fn tasks_wf(app: App) -> bool {
    match app.state {
        State::Authenticated(st) => match st.current_room {
            Some(room) => forall|i: int|
                0 <= i < room.task_handles@.len() ==> #[trigger] room.task_handles@[i]
                    < app.next_task_id,
            None => true,
        },
        State::SignedOut(_) => true,
    }
}

/// A pair of handles at or past the old allocation point is distinct
/// from every handle the old state owned: a cancelled task's handle is
/// never reused for the replacement pair.
pub proof fn lemma_fresh_pair_disjoint(prev: Seq<u64>, next_id: u64, a: u64, b: u64)
    requires
        forall|i: int| 0 <= i < prev.len() ==> #[trigger] prev[i] < next_id,
        a >= next_id,
        b >= next_id,
    ensures
        forall|i: int| 0 <= i < prev.len() ==> #[trigger] prev[i] != a && prev[i] != b,
{
}


/// Switching rooms is safe end to end: when a room is open and another
/// is entered, the very first effect cancels exactly the old room's task
/// pair, the freshly opened room owns no tasks, and the pair that a
/// following resynchronization spawns is distinct from every cancelled
/// handle — a cancelled task's handle is never reissued to the
/// replacement.
pub proof fn lemma_room_switch_never_reuses_handles(
    st: AuthenticatedState,
    pre: App,
    post: App,
    effs: Seq<Effect>,
    st2: AuthenticatedState,
    post2: App,
    effs2: Seq<Effect>,
)
    requires
        tasks_wf(pre),
        pre.state == State::Authenticated(st),
        st.current_room is Some,
        st.selected_room_index matches Some(idx) && (idx as int) < st.rooms@.len(),
        auth_reduced(AuthenticatedAction::EnterRoom, st, pre, post, effs),
        post.state == State::Authenticated(st2),
        post.next_task_id <= 0xffff_ffff_ffff_fffd,
        auth_reduced(AuthenticatedAction::SyncMessages, st2, post, post2, effs2),
    ensures
        effs[0] matches Effect::CancelTasks { task_ids } && task_ids
            == st.current_room.unwrap().task_handles,
        st2.current_room is Some,
        st2.current_room.unwrap().task_handles@.len() == 0,
        forall|i: int|
            0 <= i < st.current_room.unwrap().task_handles@.len()
                ==> #[trigger] st.current_room.unwrap().task_handles@[i] != post.next_task_id
                && st.current_room.unwrap().task_handles@[i] != post.next_task_id + 1,
{
    let old_handles = st.current_room.unwrap().task_handles@;
    assert(forall|i: int| 0 <= i < old_handles.len() ==> #[trigger] old_handles[i]
        < pre.next_task_id);
    assert(post.next_task_id == pre.next_task_id);
    lemma_fresh_pair_disjoint(
        old_handles,
        post.next_task_id,
        post.next_task_id,
        (post.next_task_id + 1) as u64,
    );
}

/// The ids of the listed rooms, in order.
pub fn room_ids(rooms: &Vec<Room>) -> (r: Vec<String>)
    ensures
        r@.len() == rooms@.len(),
        forall|i: int| 0 <= i < rooms@.len() ==> (#[trigger] r@[i])@ == (rooms@[i].id)@,
{
    let n: usize = rooms.len();
    let mut out: Vec<String> = Vec::new();
    let mut i: usize = 0;
    while i < n
        invariant
            i <= n,
            n == rooms@.len(),
            out@.len() == i,
            forall|j: int| 0 <= j < i ==> (#[trigger] out@[j])@ == (rooms@[j].id)@,
        decreases n - i,
    {
        out.push(rooms[i].id.clone());
        i = i + 1;
    }
    out
}

/// Clear the unread flag of every state row for this room, leaving the
/// rest untouched.
fn mark_room_seen(states: &mut Vec<RoomState>, room_id: &str)
    ensures
        final(states)@.len() == old(states)@.len(),
        forall|i: int|
            0 <= i < old(states)@.len() ==> (#[trigger] final(states)@[i]).room_id == old(
                states,
            )@[i].room_id && final(states)@[i].has_unread == (old(states)@[i].has_unread && (old(
                states,
            )@[i].room_id)@ != room_id@),
{
    let n: usize = states.len();
    let mut out: Vec<RoomState> = Vec::new();
    let mut i: usize = 0;
    while i < n
        invariant
            i <= n,
            n == states@.len(),
            states@ == old(states)@,
            out@.len() == i,
            forall|j: int|
                0 <= j < i ==> (#[trigger] out@[j]).room_id == states@[j].room_id
                    && out@[j].has_unread == (states@[j].has_unread && (states@[j].room_id)@
                    != room_id@),
        decreases n - i,
    {
        let keep: bool = !crate::strings::str_eq(states[i].room_id.as_str(), room_id);
        out.push(
            RoomState {
                room_id: states[i].room_id.clone(),
                has_unread: states[i].has_unread && keep,
            },
        );
        i = i + 1;
    }
    *states = out;
}

/// Enter the authenticated screen with a fresh session and start loading
/// the rooms and the profile.
pub fn new_authenticate(app: &mut App, token: String) -> (effects: Vec<Effect>)
    ensures
        authenticated_entry(*old(app), *final(app), token@, effects@),
        final(app).state matches State::Authenticated(st) && st.token == token,
        tasks_wf(*final(app)),
        final(app).next_task_id == old(app).next_task_id,
        effects@ == seq![
            Effect::SpawnLoadRooms { token: token },
            Effect::SpawnLoadProfile { token: token },
        ],
{
    let st = AuthenticatedState::new(token.clone());
    app.state = State::Authenticated(st);
    app.error = None;
    app.loading = false;
    let mut effects: Vec<Effect> = Vec::new();
    effects.push(Effect::SpawnLoadRooms { token: token.clone() });
    effects.push(Effect::SpawnLoadProfile { token });
    proof {
        assert(effects@ =~= seq![
            Effect::SpawnLoadRooms { token: token },
            Effect::SpawnLoadProfile { token: token },
        ]);
    }
    effects
}

/// Return to the signed-out screen: the open room's tasks (if any) are
/// cancelled and the stored token file is deleted.
pub fn new_signout(app: &mut App) -> (effects: Vec<Effect>)
    ensures
        final(app).state is SignedOut,
        final(app).error is None,
        !final(app).loading,
        final(app).should_close == old(app).should_close,
        final(app).next_task_id == old(app).next_task_id,
        tasks_wf(*final(app)),
        match old(app).state {
            State::Authenticated(st) => match st.current_room {
                Some(room) => effects@ == seq![
                    Effect::CancelTasks { task_ids: room.task_handles },
                    Effect::DeleteTokenFile,
                ],
                None => effects@ == seq![Effect::DeleteTokenFile],
            },
            State::SignedOut(_) => effects@ == seq![Effect::DeleteTokenFile],
        },
{
    let mut effects: Vec<Effect> = Vec::new();
    let mut prev: State = State::SignedOut(SignedOutState::new());
    core::mem::swap(&mut app.state, &mut prev);
    match prev {
        State::Authenticated(st) => {
            match st.current_room {
                Some(room) => {
                    effects.push(Effect::CancelTasks { task_ids: room.task_handles });
                },
                None => {},
            }
        },
        State::SignedOut(_) => {},
    }
    effects.push(Effect::DeleteTokenFile);
    app.error = None;
    app.loading = false;
    proof {
        match old(app).state {
            State::Authenticated(st) => match st.current_room {
                Some(room) => {
                    assert(effects@ =~= seq![
                        Effect::CancelTasks { task_ids: room.task_handles },
                        Effect::DeleteTokenFile,
                    ]);
                },
                None => {
                    assert(effects@ =~= seq![Effect::DeleteTokenFile]);
                },
            },
            State::SignedOut(_) => {
                assert(effects@ =~= seq![Effect::DeleteTokenFile]);
            },
        }
    }
    effects
}

/// Start the application: with a stored token, go straight to the
/// authenticated screen (and start its loads); without one, stay signed
/// out.
pub fn start_app(stored_token: Option<String>) -> (r: (App, Vec<Effect>))
    ensures
        match stored_token {
            Some(token) => r.0.state matches State::Authenticated(st) && st.token == token
                && r.1@ == seq![
                Effect::SpawnLoadRooms { token: token },
                Effect::SpawnLoadProfile { token: token },
            ],
            None => r.0.state is SignedOut && r.1@.len() == 0,
        },
        r.0.error is None,
        !r.0.loading,
        !r.0.should_close,
        tasks_wf(r.0),
{
    let mut app = App::initial();
    match stored_token {
        Some(token) => {
            let effects = new_authenticate(&mut app, token);
            (app, effects)
        },
        None => (app, Vec::new()),
    }
}

// ------------------------------------------------------------------
// What one reduction means
// ------------------------------------------------------------------
/// How an edit relates a text field's old and new values.
pub open spec fn textfield_edited(tfo: Textfield, tfn: Textfield, ta: TextFieldAction) -> bool {
    &&& tfn.label == tfo.label
    &&& tfn.focused == tfo.focused
    &&& tfn.hint == tfo.hint
    &&& match ta {
        TextFieldAction::TextChanged(ch) => tfn.text@ == tfo.text@.push(ch),
        TextFieldAction::TextErased => {
            if tfo.text@.len() == 0 {
                tfn.text@ == tfo.text@
            } else {
                tfn.text@ == tfo.text@.drop_last()
            }
        },
        TextFieldAction::TextAllErased => tfn.text@ == Seq::<char>::empty(),
    }
}

/// The state is untouched but for an error banner carrying `m`.
pub open spec fn banner_raised(pre: App, post: App, m: Seq<char>) -> bool {
    &&& post.state == pre.state
    &&& post.loading == pre.loading
    &&& post.should_close == pre.should_close
    &&& post.next_task_id == pre.next_task_id
    &&& post.error is Some
    &&& post.error.unwrap()@ == m
}

/// Only the authenticated node changed, into `ns`.
pub open spec fn auth_step(pre: App, post: App, ns: AuthenticatedState) -> bool {
    &&& post.state == State::Authenticated(ns)
    &&& post.error == pre.error
    &&& post.loading == pre.loading
    &&& post.should_close == pre.should_close
    &&& post.next_task_id == pre.next_task_id
}

/// The frame of an authenticated-node change: everything around the node
/// is untouched, and the post state is authenticated.
pub open spec fn auth_frame(pre: App, post: App) -> bool {
    &&& post.state is Authenticated
    &&& post.error == pre.error
    &&& post.loading == pre.loading
    &&& post.should_close == pre.should_close
    &&& post.next_task_id == pre.next_task_id
}

/// The authenticated node of a state (meaningful only when there is one).
pub open spec fn auth_of(post: App) -> AuthenticatedState
    recommends
        post.state is Authenticated,
{
    post.state->Authenticated_0
}

/// The node fields an action must leave alone, listed by exception.
pub open spec fn same_auth_but_room(st: AuthenticatedState, ns: AuthenticatedState) -> bool {
    &&& ns.token == st.token
    &&& ns.rooms == st.rooms
    &&& ns.rooms_states == st.rooms_states
    &&& ns.create_room == st.create_room
    &&& ns.profile == st.profile
    &&& ns.selected_room_index == st.selected_room_index
    &&& ns.current_room_index == st.current_room_index
}

/// The open-room fields an action must leave alone, listed by exception.
pub open spec fn same_room_but_messages(or: CurrentRoomState, nr: CurrentRoomState) -> bool {
    &&& nr.message_field == or.message_field
    &&& nr.name == or.name
    &&& nr.id == or.id
    &&& nr.selected_message == or.selected_message
    &&& nr.task_handles == or.task_handles
}

/// The three actions enqueued on entering a room, in order.
pub open spec fn enter_room_enqueues() -> Seq<Effect> {
    seq![
        Effect::Enqueue(Action::Authenticated(AuthenticatedAction::LoadPrevMessages)),
        Effect::Enqueue(Action::Authenticated(AuthenticatedAction::SyncMessages)),
        Effect::Enqueue(Action::Authenticated(AuthenticatedAction::MakeRoomAsSeen)),
    ]
}

/// A freshly opened room node: empty history, no tasks yet, the draft
/// field focused, bound to the chosen room.
pub open spec fn fresh_room_node(nr: CurrentRoomState, room: Room) -> bool {
    &&& nr.messages@.len() == 0
    &&& nr.task_handles@.len() == 0
    &&& nr.selected_message == 0
    &&& nr.name@ == room.name@
    &&& nr.id@ == room.id@
    &&& nr.message_field.focused
    &&& nr.message_field.text@ == Seq::<char>::empty()
    &&& nr.message_field.label@ == "message"@
    &&& nr.message_field.hint@ == "<Enter> Send"@
}

/// What a sign-out transition leaves behind and the effects it issues:
/// the open room's tasks are cancelled before anything else, then the
/// stored token file is deleted.
pub open spec fn signed_out_transition(pre: App, post: App, effs: Seq<Effect>) -> bool {
    &&& post.state is SignedOut
    &&& post.error is None
    &&& !post.loading
    &&& post.should_close == pre.should_close
    &&& post.next_task_id == pre.next_task_id
    &&& match pre.state {
        State::Authenticated(st) => match st.current_room {
            Some(room) => effs == seq![
                Effect::CancelTasks { task_ids: room.task_handles },
                Effect::DeleteTokenFile,
            ],
            None => effs == seq![Effect::DeleteTokenFile],
        },
        State::SignedOut(_) => effs == seq![Effect::DeleteTokenFile],
    }
}

/// What entering the authenticated screen with `token` leaves behind,
/// and the loads it starts.
pub open spec fn authenticated_entry(pre: App, post: App, token: Seq<char>, effs: Seq<Effect>) -> bool {
    &&& post.state is Authenticated
    &&& {
        let ns = auth_of(post);
        &&& ns.token@ == token
        &&& ns.rooms@.len() == 0
        &&& ns.rooms_states@.len() == 0
        &&& ns.current_room is None
        &&& ns.create_room is None
        &&& ns.profile is None
        &&& ns.current_room_index is None
        &&& ns.selected_room_index is None
    }
    &&& post.error is None
    &&& !post.loading
    &&& post.should_close == pre.should_close
    &&& post.next_task_id == pre.next_task_id
    &&& effs.len() == 2
    &&& effs[0] matches Effect::SpawnLoadRooms { token: t1 } && t1@ == token
    &&& effs[1] matches Effect::SpawnLoadProfile { token: t2 } && t2@ == token
}

/// The meaning of one sign-in-screen action.
pub open spec fn signed_out_reduced(
    a: SignedOutAction,
    st: SignedOutState,
    pre: App,
    post: App,
    effs: Seq<Effect>,
) -> bool {
    match a {
        SignedOutAction::Signin => {
            &&& post == pre
            &&& effs.len() == 1
            &&& effs[0] matches Effect::SpawnSignin { username, password } && username@
                == st.username_field.text@ && password@ == st.password_field.text@
        },
        SignedOutAction::Register => {
            &&& post == pre
            &&& effs.len() == 1
            &&& effs[0] matches Effect::SpawnRegister { username, password } && username@
                == st.username_field.text@ && password@ == st.password_field.text@
        },
        SignedOutAction::Text(ta) => {
            &&& effs.len() == 0
            &&& post.error == pre.error
            &&& post.loading == pre.loading
            &&& post.should_close == pre.should_close
            &&& post.next_task_id == pre.next_task_id
            &&& if st.username_field.focused {
                post.state matches State::SignedOut(ns) && ns.password_field == st.password_field
                    && ns.server_field == st.server_field && textfield_edited(
                    st.username_field,
                    ns.username_field,
                    ta,
                )
            } else if st.password_field.focused {
                post.state matches State::SignedOut(ns) && ns.username_field == st.username_field
                    && ns.server_field == st.server_field && textfield_edited(
                    st.password_field,
                    ns.password_field,
                    ta,
                )
            } else {
                post == pre
            }
        },
        SignedOutAction::NextFocus => {
            &&& effs.len() == 0
            &&& post.error == pre.error
            &&& post.loading == pre.loading
            &&& post.should_close == pre.should_close
            &&& post.next_task_id == pre.next_task_id
            &&& post.state matches State::SignedOut(ns) && ns.server_field == st.server_field
                && (if st.username_field.focused {
                ns.username_field == (Textfield { focused: false, ..st.username_field })
                    && ns.password_field == (Textfield { focused: true, ..st.password_field })
            } else {
                ns.username_field == (Textfield { focused: true, ..st.username_field })
                    && ns.password_field == (Textfield { focused: false, ..st.password_field })
            })
        },
        SignedOutAction::UnFocus => {
            &&& effs.len() == 0
            &&& post.error == pre.error
            &&& post.loading == pre.loading
            &&& post.should_close == pre.should_close
            &&& post.next_task_id == pre.next_task_id
            &&& post.state matches State::SignedOut(ns) && ns.server_field == st.server_field
                && ns.username_field == (Textfield { focused: false, ..st.username_field })
                && ns.password_field == (Textfield { focused: false, ..st.password_field })
        },
        SignedOutAction::SignedIn(res) => match res {
            Ok(token) => authenticated_entry(pre, post, token@, effs),
            Err(e) => {
                &&& effs.len() == 0
                &&& post.state == pre.state
                &&& !post.loading
                &&& post.should_close == pre.should_close
                &&& post.next_task_id == pre.next_task_id
                &&& post.error is Some
                &&& post.error.unwrap()@ == crate::chat_room_client::message_of(e)
            },
        },
        SignedOutAction::Registered(res) => match res {
            Ok(token) => authenticated_entry(pre, post, token@, effs),
            Err(e) => {
                &&& effs.len() == 0
                &&& post.state == pre.state
                &&& !post.loading
                &&& post.should_close == pre.should_close
                &&& post.next_task_id == pre.next_task_id
                &&& post.error is Some
                &&& post.error.unwrap()@ == crate::chat_room_client::message_of(e)
            },
        },
    }
}

/// The meaning of one authenticated-screen action.
pub open spec fn auth_reduced(
    a: AuthenticatedAction,
    st: AuthenticatedState,
    pre: App,
    post: App,
    effs: Seq<Effect>,
) -> bool {
    match a {
        AuthenticatedAction::SelectNextRoom => {
            &&& effs.len() == 0
            &&& auth_step(
                pre,
                post,
                AuthenticatedState {
                    selected_room_index: (match st.selected_room_index {
                        Some(i) => if (i as int) < st.rooms@.len() {
                            Some((i + 1) as usize)
                        } else {
                            Some(i)
                        },
                        None => Some(0usize),
                    }),
                    ..st
                },
            )
        },
        AuthenticatedAction::SelectPrevRoom => {
            &&& effs.len() == 0
            &&& auth_step(
                pre,
                post,
                AuthenticatedState {
                    selected_room_index: (match st.selected_room_index {
                        Some(i) => if i > 0 {
                            Some((i - 1) as usize)
                        } else {
                            Some(i)
                        },
                        None => Some(0usize),
                    }),
                    ..st
                },
            )
        },
        AuthenticatedAction::ScrollMessagesDown => {
            &&& effs.len() == 0
            &&& match st.current_room {
                Some(or) => {
                    if (or.selected_message as int) < or.messages@.len() {
                        auth_step(
                            pre,
                            post,
                            AuthenticatedState {
                                current_room: Some(
                                    CurrentRoomState {
                                        selected_message: (or.selected_message + 1) as usize,
                                        ..or
                                    },
                                ),
                                ..st
                            },
                        )
                    } else {
                        post == pre
                    }
                },
                None => post == pre,
            }
        },
        AuthenticatedAction::ScrollMessagesUp => {
            &&& effs.len() == 0
            &&& match st.current_room {
                Some(or) => {
                    if or.selected_message > 0 {
                        auth_step(
                            pre,
                            post,
                            AuthenticatedState {
                                current_room: Some(
                                    CurrentRoomState {
                                        selected_message: (or.selected_message - 1) as usize,
                                        ..or
                                    },
                                ),
                                ..st
                            },
                        )
                    } else {
                        post == pre
                    }
                },
                None => post == pre,
            }
        },
        AuthenticatedAction::EnterRoom => match st.selected_room_index {
            None => post == pre && effs.len() == 0,
            Some(idx) => {
                if idx as int >= st.rooms@.len() {
                    post == pre && effs.len() == 0
                } else {
                    &&& auth_frame(pre, post)
                    &&& {
                        let ns = auth_of(post);
                        &&& ns.token == st.token
                        &&& ns.rooms == st.rooms
                        &&& ns.rooms_states == st.rooms_states
                        &&& ns.create_room == st.create_room
                        &&& ns.profile == st.profile
                        &&& ns.selected_room_index == st.selected_room_index
                        &&& ns.current_room_index == Some(idx)
                        &&& ns.current_room is Some
                        &&& fresh_room_node(ns.current_room.unwrap(), st.rooms@[idx as int])
                    }
                    &&& match st.current_room {
                        Some(or) => effs.len() == 4 && (effs[0] matches Effect::CancelTasks {
                            task_ids,
                        } && task_ids == or.task_handles) && effs.subrange(1, 4)
                            == enter_room_enqueues(),
                        None => effs == enter_room_enqueues(),
                    }
                }
            },
        },
        AuthenticatedAction::ExitRoom => {
            &&& auth_step(
                pre,
                post,
                AuthenticatedState { current_room_index: None, current_room: None, ..st },
            )
            &&& match st.current_room {
                Some(or) => effs.len() == 1 && (effs[0] matches Effect::CancelTasks { task_ids }
                    && task_ids == or.task_handles),
                None => effs.len() == 0,
            }
        },
        AuthenticatedAction::ChatText(ta) => {
            &&& effs.len() == 0
            &&& match st.current_room {
                Some(or) => {
                    &&& auth_frame(pre, post)
                    &&& {
                        let ns = auth_of(post);
                        &&& same_auth_but_room(st, ns)
                        &&& ns.current_room is Some
                        &&& {
                            let nr = ns.current_room.unwrap();
                            &&& nr.messages == or.messages
                            &&& nr.name == or.name
                            &&& nr.id == or.id
                            &&& nr.selected_message == or.selected_message
                            &&& nr.task_handles == or.task_handles
                            &&& textfield_edited(or.message_field, nr.message_field, ta)
                        }
                    }
                },
                None => post == pre,
            }
        },
        AuthenticatedAction::SendMessage => match st.current_room {
            None => post == pre && effs.len() == 0,
            Some(or) => {
                if or.message_field.text@.len() == 0 {
                    post == pre && effs.len() == 0
                } else {
                    &&& auth_frame(pre, post)
                    &&& {
                        let ns = auth_of(post);
                        &&& same_auth_but_room(st, ns)
                        &&& ns.current_room is Some
                        &&& {
                            let nr = ns.current_room.unwrap();
                            &&& nr.messages == or.messages
                            &&& nr.name == or.name
                            &&& nr.id == or.id
                            &&& nr.selected_message == or.selected_message
                            &&& nr.task_handles == or.task_handles
                            &&& nr.message_field.label == or.message_field.label
                            &&& nr.message_field.hint == or.message_field.hint
                            &&& nr.message_field.focused == or.message_field.focused
                            &&& nr.message_field.text@ == Seq::<char>::empty()
                        }
                    }
                    &&& effs.len() == 1
                    &&& effs[0] matches Effect::SpawnSendMessage { token, text, room_id } && token@
                        == st.token@ && text@ == or.message_field.text@ && room_id@ == or.id@
                }
            },
        },
        AuthenticatedAction::LoadRooms => {
            &&& post == pre
            &&& effs.len() == 1
            &&& effs[0] matches Effect::SpawnLoadRooms { token } && token@ == st.token@
        },
        AuthenticatedAction::RoomsLoaded(res) => match res {
            Ok(rooms) => {
                &&& auth_step(pre, post, AuthenticatedState { rooms: rooms, ..st })
                &&& effs == seq![
                    Effect::Enqueue(Action::Authenticated(AuthenticatedAction::UpdateRoomStates)),
                    Effect::Enqueue(
                        Action::Authenticated(AuthenticatedAction::ListenForRoomStateChanges),
                    ),
                ]
            },
            Err(e) => banner_raised(pre, post, crate::chat_room_client::message_of(e))
                && effs.len() == 0,
        },
        AuthenticatedAction::SyncMessages => match st.current_room {
            None => post == pre && effs.len() == 0,
            Some(or) => {
                if pre.next_task_id <= 0xffff_ffff_ffff_fffd {
                    &&& post.error == pre.error
                    &&& post.loading == pre.loading
                    &&& post.should_close == pre.should_close
                    &&& post.next_task_id == pre.next_task_id + 2
                    &&& post.state is Authenticated
                    &&& {
                        let ns = auth_of(post);
                        &&& same_auth_but_room(st, ns)
                        &&& ns.current_room is Some
                        &&& {
                            let nr = ns.current_room.unwrap();
                            &&& nr.messages == or.messages
                            &&& nr.message_field == or.message_field
                            &&& nr.name == or.name
                            &&& nr.id == or.id
                            &&& nr.selected_message == or.selected_message
                            &&& nr.task_handles@ == seq![
                                pre.next_task_id,
                                (pre.next_task_id + 1) as u64,
                            ]
                        }
                    }
                    &&& {
                        let spawn = effs[effs.len() - 1];
                        &&& spawn matches Effect::SpawnSyncMessages {
                            token,
                            room_id,
                            stream_task,
                            forward_task,
                        } && token@ == st.token@ && room_id@ == or.id@ && stream_task
                            == pre.next_task_id && forward_task == pre.next_task_id + 1
                        &&& if or.task_handles@.len() > 0 {
                            effs.len() == 2 && (effs[0] matches Effect::CancelTasks { task_ids }
                                && task_ids == or.task_handles)
                        } else {
                            effs.len() == 1
                        }
                    }
                } else {
                    post == pre && effs.len() == 0
                }
            },
        },
        AuthenticatedAction::LoadPrevMessages => match st.current_room {
            None => post == pre && effs.len() == 0,
            Some(or) => {
                &&& post == pre
                &&& effs.len() == 1
                &&& effs[0] matches Effect::SpawnLoadPrevMessages { token, room_id } && token@
                    == st.token@ && room_id@ == or.id@
            },
        },
        AuthenticatedAction::PrevMessagesLoaded(res) => match st.current_room {
            None => post == pre && effs.len() == 0,
            Some(or) => match res {
                Ok(msgs) => {
                    &&& effs.len() == 0
                    &&& auth_frame(pre, post)
                    &&& {
                        let ns = auth_of(post);
                        &&& same_auth_but_room(st, ns)
                        &&& ns.current_room is Some
                        &&& same_room_but_messages(or, ns.current_room.unwrap())
                        &&& ns.current_room.unwrap().messages@ == or.messages@ + msgs@
                    }
                },
                Err(e) => banner_raised(pre, post, crate::chat_room_client::message_of(e))
                    && effs.len() == 0,
            },
        },
        AuthenticatedAction::MessageChanged(msg) => {
            &&& effs.len() == 0
            &&& match st.current_room {
                Some(or) => {
                    &&& auth_frame(pre, post)
                    &&& {
                        let ns = auth_of(post);
                        &&& same_auth_but_room(st, ns)
                        &&& ns.current_room is Some
                        &&& same_room_but_messages(or, ns.current_room.unwrap())
                        &&& ns.current_room.unwrap().messages@ == or.messages@.push(msg)
                    }
                },
                None => post == pre,
            }
        },
        AuthenticatedAction::LoadUserProfile => {
            &&& post == pre
            &&& effs.len() == 1
            &&& effs[0] matches Effect::SpawnLoadProfile { token } && token@ == st.token@
        },
        AuthenticatedAction::UserprofileLoaded(res) => match res {
            Ok(p) => effs.len() == 0 && auth_step(
                pre,
                post,
                AuthenticatedState { profile: Some(p), ..st },
            ),
            Err(e) => banner_raised(pre, post, crate::chat_room_client::message_of(e))
                && effs.len() == 0,
        },
        AuthenticatedAction::Signout => {
            &&& post == pre
            &&& effs.len() == 1
            &&& effs[0] matches Effect::SpawnSignout { token } && token@ == st.token@
        },
        AuthenticatedAction::SignoutCompleted(res) => match res {
            Ok(_) => signed_out_transition(pre, post, effs),
            Err(e) => banner_raised(pre, post, crate::chat_room_client::message_of(e))
                && effs.len() == 0,
        },
        AuthenticatedAction::StartCreatingRoom => {
            &&& effs.len() == 0
            &&& auth_frame(pre, post)
            &&& {
                let ns = auth_of(post);
                &&& ns.token == st.token
                &&& ns.rooms == st.rooms
                &&& ns.rooms_states == st.rooms_states
                &&& ns.profile == st.profile
                &&& ns.selected_room_index == st.selected_room_index
                &&& ns.current_room_index == st.current_room_index
                &&& ns.current_room == st.current_room
                &&& ns.create_room is Some
                &&& ns.create_room.unwrap().name_field.text@ == Seq::<char>::empty()
                &&& ns.create_room.unwrap().name_field.label@ == "name"@
                &&& !ns.create_room.unwrap().name_field.focused
            }
        },
        AuthenticatedAction::CreateNewRoom => match st.create_room {
            None => post == pre && effs.len() == 0,
            Some(cr) => {
                &&& post == pre
                &&& effs.len() == 1
                &&& effs[0] matches Effect::SpawnCreateRoom { token, name } && token@ == st.token@
                    && name@ == cr.name_field.text@
            },
        },
        AuthenticatedAction::NewRoomIsCreated(res) => match res {
            Ok(room) => {
                &&& effs.len() == 0
                &&& auth_frame(pre, post)
                &&& {
                    let ns = auth_of(post);
                    &&& ns.token == st.token
                    &&& ns.rooms_states == st.rooms_states
                    &&& ns.profile == st.profile
                    &&& ns.selected_room_index == st.selected_room_index
                    &&& ns.current_room_index == st.current_room_index
                    &&& ns.current_room == st.current_room
                    &&& ns.create_room is None
                    &&& ns.rooms@ == seq![room] + st.rooms@
                }
            },
            Err(e) => banner_raised(pre, post, crate::chat_room_client::message_of(e))
                && effs.len() == 0,
        },
        AuthenticatedAction::CreateRoomName(ta) => {
            &&& effs.len() == 0
            &&& match st.create_room {
                Some(cr) => {
                    &&& auth_frame(pre, post)
                    &&& {
                        let ns = auth_of(post);
                        &&& ns.token == st.token
                        &&& ns.rooms == st.rooms
                        &&& ns.rooms_states == st.rooms_states
                        &&& ns.profile == st.profile
                        &&& ns.selected_room_index == st.selected_room_index
                        &&& ns.current_room_index == st.current_room_index
                        &&& ns.current_room == st.current_room
                        &&& ns.create_room is Some
                        &&& textfield_edited(
                            cr.name_field,
                            ns.create_room.unwrap().name_field,
                            ta,
                        )
                    }
                },
                None => post == pre,
            }
        },
        AuthenticatedAction::CancelNewRoom => {
            &&& effs.len() == 0
            &&& auth_step(pre, post, AuthenticatedState { create_room: None, ..st })
        },
        AuthenticatedAction::ListenForRoomStateChanges => {
            &&& post == pre
            &&& effs.len() == 1
            &&& effs[0] matches Effect::SpawnListenRoomStates { token, room_ids } && token@
                == st.token@ && room_ids@.len() == st.rooms@.len() && (forall|k: int|
                0 <= k < st.rooms@.len() ==> (#[trigger] room_ids@[k])@ == (st.rooms@[k].id)@)
        },
        AuthenticatedAction::UpdateRoomStates => {
            &&& post == pre
            &&& effs.len() == 1
            &&& effs[0] matches Effect::SpawnUpdateRoomStates { token, room_ids } && token@
                == st.token@ && room_ids@.len() == st.rooms@.len() && (forall|k: int|
                0 <= k < st.rooms@.len() ==> (#[trigger] room_ids@[k])@ == (st.rooms@[k].id)@)
        },
        AuthenticatedAction::RoomStatesUpdated(res) => match res {
            Ok(states) => effs.len() == 0 && auth_step(
                pre,
                post,
                AuthenticatedState { rooms_states: states, ..st },
            ),
            Err(e) => banner_raised(pre, post, crate::chat_room_client::message_of(e))
                && effs.len() == 0,
        },
        AuthenticatedAction::MakeRoomAsSeen => match st.current_room {
            None => post == pre && effs.len() == 0,
            Some(or) => {
                &&& auth_frame(pre, post)
                &&& {
                    let ns = auth_of(post);
                    &&& ns.token == st.token
                    &&& ns.rooms == st.rooms
                    &&& ns.profile == st.profile
                    &&& ns.selected_room_index == st.selected_room_index
                    &&& ns.current_room_index == st.current_room_index
                    &&& ns.current_room == st.current_room
                    &&& ns.create_room == st.create_room
                    &&& ns.rooms_states@.len() == st.rooms_states@.len()
                    &&& forall|k: int|
                        0 <= k < st.rooms_states@.len() ==> (
                        #[trigger] ns.rooms_states@[k]).room_id == st.rooms_states@[k].room_id
                            && ns.rooms_states@[k].has_unread == (
                        st.rooms_states@[k].has_unread && (st.rooms_states@[k].room_id)@ != (
                        or.id)@)
                }
                &&& effs.len() == 1
                &&& effs[0] matches Effect::SpawnMarkRoomSeen { token, room_id } && token@
                    == st.token@ && room_id@ == or.id@
            },
        },
    }
}

/// The complete meaning of one reduction: how the new state and the
/// issued effects relate to the old state for every action. While the
/// client is loading everything is ignored; while the error banner is up
/// only its dismissal is processed.
pub open spec fn reduced(action: Action, pre: App, post: App, effs: Seq<Effect>) -> bool {
    if pre.loading {
        post == pre && effs.len() == 0
    } else if pre.error is Some {
        match action {
            Action::CloseError => post == (App { error: None, ..pre }) && effs.len() == 0,
            _ => post == pre && effs.len() == 0,
        }
    } else {
        match action {
            Action::Close => post == (App { should_close: true, ..pre }) && effs.len() == 0,
            Action::Loading(b) => post == (App { loading: b, ..pre }) && effs.len() == 0,
            Action::CloseError => post == (App { error: None, ..pre }) && effs.len() == 0,
            Action::SigneOut(a) => match pre.state {
                State::SignedOut(st) => signed_out_reduced(a, st, pre, post, effs),
                State::Authenticated(_) => post == pre && effs.len() == 0,
            },
            Action::Authenticated(a) => match pre.state {
                State::Authenticated(st) => auth_reduced(a, st, pre, post, effs),
                State::SignedOut(_) => post == pre && effs.len() == 0,
            },
        }
    }
}

// ------------------------------------------------------------------
// The reducer
// ------------------------------------------------------------------
/// The pre-state an action was reduced against, reassembled from its
/// pieces.
pub open spec fn with_signed_out(st: SignedOutState, a: App) -> App {
    App { state: State::SignedOut(st), ..a }
}

pub open spec fn with_authenticated(st: AuthenticatedState, a: App) -> App {
    App { state: State::Authenticated(st), ..a }
}

/// Reduce one sign-in-screen action against the owned node `st`; the
/// caller has moved the node out of `app.state` and this puts the result
/// back.
fn reduce_signed_out(a: SignedOutAction, st: SignedOutState, app: &mut App) -> (effects: Vec<
    Effect,
>)
    requires
        !old(app).loading,
        old(app).error is None,
    ensures
        signed_out_reduced(a, st, with_signed_out(st, *old(app)), *final(app), effects@),
        tasks_wf(*final(app)),
        final(app).next_task_id >= old(app).next_task_id,
{
    let ghost pre = with_signed_out(st, *old(app));
    match a {
        SignedOutAction::Signin => {
            let username = st.username_field.text.clone();
            let password = st.password_field.text.clone();
            app.state = State::SignedOut(st);
            proof {
                assert(*app =~= pre);
            }
            let mut effects: Vec<Effect> = Vec::new();
            effects.push(Effect::SpawnSignin { username, password });
            effects
        },
        SignedOutAction::Register => {
            let username = st.username_field.text.clone();
            let password = st.password_field.text.clone();
            app.state = State::SignedOut(st);
            proof {
                assert(*app =~= pre);
            }
            let mut effects: Vec<Effect> = Vec::new();
            effects.push(Effect::SpawnRegister { username, password });
            effects
        },
        SignedOutAction::Text(ta) => {
            let mut st = st;
            if st.username_field.focused {
                st.username_field.handle_action(&ta);
            } else if st.password_field.focused {
                st.password_field.handle_action(&ta);
            }
            app.state = State::SignedOut(st);
            proof {
                if !pre.state->SignedOut_0.username_field.focused
                    && !pre.state->SignedOut_0.password_field.focused {
                    assert(*app =~= pre);
                }
            }
            Vec::new()
        },
        SignedOutAction::NextFocus => {
            let mut st = st;
            if st.username_field.focused {
                st.username_field.focused = false;
                st.password_field.focused = true;
            } else {
                st.username_field.focused = true;
                st.password_field.focused = false;
            }
            app.state = State::SignedOut(st);
            Vec::new()
        },
        SignedOutAction::UnFocus => {
            let mut st = st;
            st.username_field.focused = false;
            st.password_field.focused = false;
            app.state = State::SignedOut(st);
            Vec::new()
        },
        SignedOutAction::SignedIn(res) => {
            app.loading = false;
            match res {
                Ok(token) => {
                    let effects = new_authenticate(app, token);
                    effects
                },
                Err(err) => {
                    app.state = State::SignedOut(st);
                    app.error = Some(err.to_message());
                    Vec::new()
                },
            }
        },
        SignedOutAction::Registered(res) => {
            app.loading = false;
            match res {
                Ok(token) => {
                    let effects = new_authenticate(app, token);
                    effects
                },
                Err(err) => {
                    app.state = State::SignedOut(st);
                    app.error = Some(err.to_message());
                    Vec::new()
                },
            }
        },
    }
}

/// Reduce one authenticated-screen action against the owned node `st`;
/// the caller has moved the node out of `app.state` and this puts the
/// result back.
fn reduce_authenticated(a: AuthenticatedAction, st: AuthenticatedState, app: &mut App) -> (effects:
    Vec<Effect>)
    requires
        !old(app).loading,
        old(app).error is None,
        tasks_wf(with_authenticated(st, *old(app))),
    ensures
        auth_reduced(a, st, with_authenticated(st, *old(app)), *final(app), effects@),
        tasks_wf(*final(app)),
        final(app).next_task_id >= old(app).next_task_id,
{
    let ghost pre = with_authenticated(st, *old(app));
    match a {
        AuthenticatedAction::SelectNextRoom => {
            let mut st = st;
            match st.selected_room_index {
                Some(index) => {
                    if index < st.rooms.len() {
                        st.selected_room_index = Some(index + 1);
                    }
                },
                None => {
                    st.selected_room_index = Some(0);
                },
            }
            app.state = State::Authenticated(st);
            Vec::new()
        },
        AuthenticatedAction::SelectPrevRoom => {
            let mut st = st;
            match st.selected_room_index {
                Some(index) => {
                    if index > 0 {
                        st.selected_room_index = Some(index - 1);
                    }
                },
                None => {
                    st.selected_room_index = Some(0);
                },
            }
            app.state = State::Authenticated(st);
            Vec::new()
        },
        AuthenticatedAction::ScrollMessagesDown => {
            let mut st = st;
            match st.current_room {
                Some(mut room) => {
                    if room.selected_message < room.messages.len() {
                        room.selected_message = room.selected_message + 1;
                    }
                    st.current_room = Some(room);
                },
                None => {
                    st.current_room = None;
                },
            }
            app.state = State::Authenticated(st);
            Vec::new()
        },
        AuthenticatedAction::ScrollMessagesUp => {
            let mut st = st;
            match st.current_room {
                Some(mut room) => {
                    if room.selected_message > 0 {
                        room.selected_message = room.selected_message - 1;
                    }
                    st.current_room = Some(room);
                },
                None => {
                    st.current_room = None;
                },
            }
            app.state = State::Authenticated(st);
            Vec::new()
        },
        AuthenticatedAction::EnterRoom => {
            let mut st = st;
            let mut effects: Vec<Effect> = Vec::new();
            match st.selected_room_index {
                Some(index) => {
                    if index < st.rooms.len() {
                        match st.current_room {
                            Some(prev_room) => {
                                effects.push(
                                    Effect::CancelTasks { task_ids: prev_room.task_handles },
                                );
                            },
                            None => {},
                        }
                        let message_field = Textfield {
                            label: "message".to_owned(),
                            text: String::new(),
                            focused: true,
                            hint: "<Enter> Send".to_owned(),
                        };
                        st.current_room_index = Some(index);
                        st.current_room = Some(
                            CurrentRoomState {
                                messages: Vec::new(),
                                task_handles: Vec::new(),
                                message_field,
                                name: st.rooms[index].name.clone(),
                                id: st.rooms[index].id.clone(),
                                selected_message: 0,
                            },
                        );
                        effects.push(
                            Effect::Enqueue(
                                Action::Authenticated(AuthenticatedAction::LoadPrevMessages),
                            ),
                        );
                        effects.push(
                            Effect::Enqueue(
                                Action::Authenticated(AuthenticatedAction::SyncMessages),
                            ),
                        );
                        effects.push(
                            Effect::Enqueue(
                                Action::Authenticated(AuthenticatedAction::MakeRoomAsSeen),
                            ),
                        );
                        proof {
                            match pre.state->Authenticated_0.current_room {
                                Some(or) => {
                                    assert(effects@.subrange(1, 4) =~= enter_room_enqueues());
                                },
                                None => {
                                    assert(effects@ =~= enter_room_enqueues());
                                },
                            }
                        }
                    }
                },
                None => {},
            }
            app.state = State::Authenticated(st);
            effects
        },
        AuthenticatedAction::ExitRoom => {
            let mut st = st;
            let mut effects: Vec<Effect> = Vec::new();
            match st.current_room {
                Some(room) => {
                    effects.push(Effect::CancelTasks { task_ids: room.task_handles });
                },
                None => {},
            }
            st.current_room_index = None;
            st.current_room = None;
            app.state = State::Authenticated(st);
            effects
        },
        AuthenticatedAction::ChatText(ta) => {
            let mut st = st;
            match st.current_room {
                Some(mut room) => {
                    room.message_field.handle_action(&ta);
                    st.current_room = Some(room);
                },
                None => {
                    st.current_room = None;
                },
            }
            app.state = State::Authenticated(st);
            Vec::new()
        },
        AuthenticatedAction::SendMessage => {
            let mut st = st;
            let mut effects: Vec<Effect> = Vec::new();
            match st.current_room {
                Some(mut room) => {
                    if room.message_field.text.as_str().is_empty() {
                        st.current_room = Some(room);
                    } else {
                        let message = room.message_field.text.clone();
                        let token = st.token.clone();
                        let room_id = room.id.clone();
                        crate::strings::string_clear(&mut room.message_field.text);
                        st.current_room = Some(room);
                        effects.push(
                            Effect::SpawnSendMessage { token, text: message, room_id },
                        );
                    }
                },
                None => {
                    st.current_room = None;
                },
            }
            app.state = State::Authenticated(st);
            effects
        },
        AuthenticatedAction::LoadRooms => {
            let token = st.token.clone();
            app.state = State::Authenticated(st);
            proof {
                assert(*app =~= pre);
            }
            let mut effects: Vec<Effect> = Vec::new();
            effects.push(Effect::SpawnLoadRooms { token });
            effects
        },
        AuthenticatedAction::RoomsLoaded(res) => {
            let mut st = st;
            match res {
                Ok(rooms) => {
                    st.rooms = rooms;
                    app.state = State::Authenticated(st);
                    let mut effects: Vec<Effect> = Vec::new();
                    effects.push(
                        Effect::Enqueue(
                            Action::Authenticated(AuthenticatedAction::UpdateRoomStates),
                        ),
                    );
                    effects.push(
                        Effect::Enqueue(
                            Action::Authenticated(AuthenticatedAction::ListenForRoomStateChanges),
                        ),
                    );
                    proof {
                        assert(effects@ =~= seq![
                            Effect::Enqueue(
                                Action::Authenticated(AuthenticatedAction::UpdateRoomStates),
                            ),
                            Effect::Enqueue(
                                Action::Authenticated(
                                    AuthenticatedAction::ListenForRoomStateChanges,
                                ),
                            ),
                        ]);
                    }
                    effects
                },
                Err(err) => {
                    app.state = State::Authenticated(st);
                    app.error = Some(err.to_message());
                    Vec::new()
                },
            }
        },
        AuthenticatedAction::SyncMessages => {
            let mut st = st;
            let mut effects: Vec<Effect> = Vec::new();
            match st.current_room {
                Some(mut room) => {
                    if app.next_task_id <= 0xffff_ffff_ffff_fffdu64 {
                        let a1: u64 = app.next_task_id;
                        let a2: u64 = a1 + 1;
                        app.next_task_id = a1 + 2;
                        let mut fresh: Vec<u64> = Vec::new();
                        fresh.push(a1);
                        fresh.push(a2);
                        core::mem::swap(&mut room.task_handles, &mut fresh);
                        let token = st.token.clone();
                        let room_id = room.id.clone();
                        proof {
                            assert(room.task_handles@ =~= seq![a1, a2]);
                        }
                        if fresh.len() > 0 {
                            effects.push(Effect::CancelTasks { task_ids: fresh });
                        }
                        effects.push(
                            Effect::SpawnSyncMessages {
                                token,
                                room_id,
                                stream_task: a1,
                                forward_task: a2,
                            },
                        );
                        st.current_room = Some(room);
                    } else {
                        st.current_room = Some(room);
                    }
                },
                None => {
                    st.current_room = None;
                },
            }
            app.state = State::Authenticated(st);
            effects
        },
        AuthenticatedAction::LoadPrevMessages => {
            let mut effects: Vec<Effect> = Vec::new();
            match &st.current_room {
                Some(room) => {
                    effects.push(
                        Effect::SpawnLoadPrevMessages {
                            token: st.token.clone(),
                            room_id: room.id.clone(),
                        },
                    );
                },
                None => {},
            }
            app.state = State::Authenticated(st);
            proof {
                assert(*app =~= pre);
            }
            effects
        },
        AuthenticatedAction::PrevMessagesLoaded(res) => {
            let mut st = st;
            match st.current_room {
                Some(mut room) => {
                    match res {
                        Ok(prev_messages) => {
                            let mut prev_messages = prev_messages;
                            room.messages.append(&mut prev_messages);
                            st.current_room = Some(room);
                            app.state = State::Authenticated(st);
                        },
                        Err(err) => {
                            st.current_room = Some(room);
                            app.state = State::Authenticated(st);
                            app.error = Some(err.to_message());
                        },
                    }
                },
                None => {
                    st.current_room = None;
                    app.state = State::Authenticated(st);
                },
            }
            Vec::new()
        },
        AuthenticatedAction::MessageChanged(msg) => {
            let mut st = st;
            match st.current_room {
                Some(mut room) => {
                    room.messages.push(msg);
                    st.current_room = Some(room);
                },
                None => {
                    st.current_room = None;
                },
            }
            app.state = State::Authenticated(st);
            Vec::new()
        },
        AuthenticatedAction::LoadUserProfile => {
            let token = st.token.clone();
            app.state = State::Authenticated(st);
            proof {
                assert(*app =~= pre);
            }
            let mut effects: Vec<Effect> = Vec::new();
            effects.push(Effect::SpawnLoadProfile { token });
            effects
        },
        AuthenticatedAction::UserprofileLoaded(res) => {
            let mut st = st;
            match res {
                Ok(profile) => {
                    st.profile = Some(profile);
                    app.state = State::Authenticated(st);
                },
                Err(err) => {
                    app.state = State::Authenticated(st);
                    app.error = Some(err.to_message());
                },
            }
            Vec::new()
        },
        AuthenticatedAction::Signout => {
            let token = st.token.clone();
            app.state = State::Authenticated(st);
            proof {
                assert(*app =~= pre);
            }
            let mut effects: Vec<Effect> = Vec::new();
            effects.push(Effect::SpawnSignout { token });
            effects
        },
        AuthenticatedAction::SignoutCompleted(res) => {
            match res {
                Ok(_) => {
                    let mut effects: Vec<Effect> = Vec::new();
                    match st.current_room {
                        Some(room) => {
                            effects.push(Effect::CancelTasks { task_ids: room.task_handles });
                        },
                        None => {},
                    }
                    effects.push(Effect::DeleteTokenFile);
                    app.state = State::SignedOut(SignedOutState::new());
                    app.error = None;
                    app.loading = false;
                    proof {
                        match pre.state->Authenticated_0.current_room {
                            Some(room) => {
                                assert(effects@ =~= seq![
                                    Effect::CancelTasks { task_ids: room.task_handles },
                                    Effect::DeleteTokenFile,
                                ]);
                            },
                            None => {
                                assert(effects@ =~= seq![Effect::DeleteTokenFile]);
                            },
                        }
                    }
                    effects
                },
                Err(err) => {
                    app.state = State::Authenticated(st);
                    app.error = Some(err.to_message());
                    Vec::new()
                },
            }
        },
        AuthenticatedAction::StartCreatingRoom => {
            let mut st = st;
            st.create_room = Some(CreateRoomState::new());
            app.state = State::Authenticated(st);
            Vec::new()
        },
        AuthenticatedAction::CreateNewRoom => {
            let mut effects: Vec<Effect> = Vec::new();
            match &st.create_room {
                Some(create_room) => {
                    effects.push(
                        Effect::SpawnCreateRoom {
                            token: st.token.clone(),
                            name: create_room.name_field.text.clone(),
                        },
                    );
                },
                None => {},
            }
            app.state = State::Authenticated(st);
            proof {
                assert(*app =~= pre);
            }
            effects
        },
        AuthenticatedAction::NewRoomIsCreated(res) => {
            let mut st = st;
            match res {
                Ok(room) => {
                    st.rooms.insert(0, room);
                    st.create_room = None;
                    app.state = State::Authenticated(st);
                    proof {
                        let ns = app.state->Authenticated_0;
                        assert(ns.rooms@ =~= seq![res.unwrap()] + pre.state->Authenticated_0.rooms@);
                    }
                },
                Err(err) => {
                    app.state = State::Authenticated(st);
                    app.error = Some(err.to_message());
                },
            }
            Vec::new()
        },
        AuthenticatedAction::CreateRoomName(ta) => {
            let mut st = st;
            match st.create_room {
                Some(mut create_room) => {
                    create_room.name_field.handle_action(&ta);
                    st.create_room = Some(create_room);
                },
                None => {
                    st.create_room = None;
                },
            }
            app.state = State::Authenticated(st);
            Vec::new()
        },
        AuthenticatedAction::CancelNewRoom => {
            let mut st = st;
            st.create_room = None;
            app.state = State::Authenticated(st);
            Vec::new()
        },
        AuthenticatedAction::ListenForRoomStateChanges => {
            let ids = room_ids(&st.rooms);
            let token = st.token.clone();
            app.state = State::Authenticated(st);
            proof {
                assert(*app =~= pre);
            }
            let mut effects: Vec<Effect> = Vec::new();
            effects.push(Effect::SpawnListenRoomStates { token, room_ids: ids });
            effects
        },
        AuthenticatedAction::UpdateRoomStates => {
            let ids = room_ids(&st.rooms);
            let token = st.token.clone();
            app.state = State::Authenticated(st);
            proof {
                assert(*app =~= pre);
            }
            let mut effects: Vec<Effect> = Vec::new();
            effects.push(Effect::SpawnUpdateRoomStates { token, room_ids: ids });
            effects
        },
        AuthenticatedAction::RoomStatesUpdated(res) => {
            let mut st = st;
            match res {
                Ok(states) => {
                    st.rooms_states = states;
                    app.state = State::Authenticated(st);
                },
                Err(err) => {
                    app.state = State::Authenticated(st);
                    app.error = Some(err.to_message());
                },
            }
            Vec::new()
        },
        AuthenticatedAction::MakeRoomAsSeen => {
            let mut st = st;
            let mut effects: Vec<Effect> = Vec::new();
            let room_id: Option<String> = match &st.current_room {
                Some(room) => Some(room.id.clone()),
                None => None,
            };
            match room_id {
                Some(rid) => {
                    mark_room_seen(&mut st.rooms_states, rid.as_str());
                    effects.push(
                        Effect::SpawnMarkRoomSeen { token: st.token.clone(), room_id: rid },
                    );
                },
                None => {},
            }
            app.state = State::Authenticated(st);
            effects
        },
    }
}

/// Process one action: the complete reducer of the client's main loop.
/// While loading everything is ignored; while the error banner is up only
/// its dismissal is processed; otherwise the action's meaning is given by
/// [`reduced`]. Task handles never go backwards, so a cancelled task's
/// handle is never reissued.
pub fn handle_action(action: Action, app: &mut App) -> (effects: Vec<Effect>)
    requires
        tasks_wf(*old(app)),
    ensures
        reduced(action, *old(app), *final(app), effects@),
        tasks_wf(*final(app)),
        final(app).next_task_id >= old(app).next_task_id,
{
    if app.loading {
        return Vec::new();
    }
    if app.error.is_some() {
        match action {
            Action::CloseError => {
                app.error = None;
                proof {
                    assert(*app =~= (App { error: None, ..*old(app) }));
                }
            },
            _ => {},
        }
        return Vec::new();
    }
    match action {
        Action::Close => {
            app.should_close = true;
            proof {
                assert(*app =~= (App { should_close: true, ..*old(app) }));
            }
            Vec::new()
        },
        Action::Loading(is_loading) => {
            app.loading = is_loading;
            proof {
                assert(*app =~= (App { loading: is_loading, ..*old(app) }));
            }
            Vec::new()
        },
        Action::CloseError => {
            app.error = None;
            proof {
                assert(*app =~= (App { error: None, ..*old(app) }));
            }
            Vec::new()
        },
        Action::SigneOut(a) => {
            let mut taken: State = State::SignedOut(SignedOutState::new());
            core::mem::swap(&mut app.state, &mut taken);
            match taken {
                State::SignedOut(st) => {
                    proof {
                        assert(with_signed_out(st, *app) =~= *old(app));
                    }
                    reduce_signed_out(a, st, app)
                },
                State::Authenticated(st) => {
                    app.state = State::Authenticated(st);
                    proof {
                        assert(*app =~= *old(app));
                    }
                    Vec::new()
                },
            }
        },
        Action::Authenticated(a) => {
            let mut taken: State = State::SignedOut(SignedOutState::new());
            core::mem::swap(&mut app.state, &mut taken);
            match taken {
                State::Authenticated(st) => {
                    proof {
                        assert(with_authenticated(st, *app) =~= *old(app));
                    }
                    reduce_authenticated(a, st, app)
                },
                State::SignedOut(st) => {
                    app.state = State::SignedOut(st);
                    proof {
                        assert(*app =~= *old(app));
                    }
                    Vec::new()
                },
            }
        },
    }
}

} // verus!
