//! The client's whole state: signed-out or authenticated, the open room
//! with its background-task handles, the create-room form, and the text
//! fields, together with the actions the main loop processes.
//!
//! Background tasks are tracked by explicit numeric handles owned by the
//! state node that spawned them, so cancelling them is an explicit,
//! auditable operation.
use crate::chat_room_client::Error;
use crate::models::{Message, Room, RoomState, UserProfile};
use crate::strings::{string_clear, string_pop_char, string_push_char};
use vstd::prelude::*;

verus! {

/// An editable line of text with a label, a focus flag, and a hint.
pub struct Textfield {
    pub label: String,
    pub text: String,
    pub focused: bool,
    pub hint: String,
}

/// An edit of a text field.
#[derive(Debug)]
pub enum TextFieldAction {
    TextChanged(char),
    TextErased,
    TextAllErased,
}

impl Textfield {
    pub fn new(label: &str) -> (r: Textfield)
        ensures
            r.label@ == label@,
            r.text@ == Seq::<char>::empty(),
            !r.focused,
            r.hint@ == Seq::<char>::empty(),
    {
        Textfield {
            label: label.to_owned(),
            text: String::new(),
            focused: false,
            hint: String::new(),
        }
    }

    pub fn new_focused(label: &str, focuse: bool) -> (r: Textfield)
        ensures
            r.label@ == label@,
            r.text@ == Seq::<char>::empty(),
            r.focused == focuse,
            r.hint@ == Seq::<char>::empty(),
    {
        Textfield {
            label: label.to_owned(),
            text: String::new(),
            focused: focuse,
            hint: String::new(),
        }
    }

    /// Apply an edit: append a character, erase the last one (nothing on
    /// an empty text), or erase everything.
    pub fn handle_action(&mut self, action: &TextFieldAction)
        ensures
            final(self).label == old(self).label,
            final(self).focused == old(self).focused,
            final(self).hint == old(self).hint,
            match action {
                TextFieldAction::TextChanged(ch) => final(self).text@ == old(self).text@.push(
                    *ch,
                ),
                TextFieldAction::TextErased => {
                    if old(self).text@.len() == 0 {
                        final(self).text@ == old(self).text@
                    } else {
                        final(self).text@ == old(self).text@.drop_last()
                    }
                },
                TextFieldAction::TextAllErased => final(self).text@ == Seq::<char>::empty(),
            },
    {
        match action {
            TextFieldAction::TextChanged(ch) => string_push_char(&mut self.text, *ch),
            TextFieldAction::TextErased => {
                let _ = string_pop_char(&mut self.text);
            },
            TextFieldAction::TextAllErased => string_clear(&mut self.text),
        }
    }
}

/// The open room: its messages, the draft being typed, the selection, and
/// the handles of the background tasks bound to it (the stream consumer
/// and the forwarder).
pub struct CurrentRoomState {
    pub messages: Vec<Message>,
    pub message_field: Textfield,
    pub name: String,
    pub id: String,
    pub selected_message: usize,
    pub task_handles: Vec<u64>,
}

/// The create-room form.
pub struct CreateRoomState {
    pub name_field: Textfield,
}

impl CreateRoomState {
    pub fn new() -> (r: CreateRoomState)
        ensures
            r.name_field.label@ == "name"@,
            r.name_field.text@ == Seq::<char>::empty(),
            !r.name_field.focused,
    {
        CreateRoomState { name_field: Textfield::new("name") }
    }
}

/// The sign-in screen's fields.
pub struct SignedOutState {
    pub server_field: Textfield,
    pub username_field: Textfield,
    pub password_field: Textfield,
}

impl SignedOutState {
    pub fn new() -> (r: SignedOutState)
        ensures
            r.server_field.focused,
            !r.username_field.focused,
            !r.password_field.focused,
            r.username_field.text@ == Seq::<char>::empty(),
            r.password_field.text@ == Seq::<char>::empty(),
    {
        SignedOutState {
            server_field: Textfield::new_focused("server", true),
            username_field: Textfield::new("username"),
            password_field: Textfield::new("password"),
        }
    }
}

/// The authenticated session: token, rooms, per-room unread flags, the
/// selection, and at most one open room.
pub struct AuthenticatedState {
    pub token: String,
    pub rooms: Vec<Room>,
    pub rooms_states: Vec<RoomState>,
    pub current_room_index: Option<usize>,
    pub selected_room_index: Option<usize>,
    pub current_room: Option<CurrentRoomState>,
    pub create_room: Option<CreateRoomState>,
    pub profile: Option<UserProfile>,
}

impl AuthenticatedState {
    pub fn new(token: String) -> (r: AuthenticatedState)
        ensures
            r.token == token,
            r.rooms@.len() == 0,
            r.rooms_states@.len() == 0,
            r.current_room_index is None,
            r.selected_room_index is None,
            r.current_room is None,
            r.create_room is None,
            r.profile is None,
    {
        AuthenticatedState {
            token,
            rooms: Vec::new(),
            rooms_states: Vec::new(),
            current_room_index: None,
            selected_room_index: None,
            current_room: None,
            create_room: None,
            profile: None,
        }
    }
}

/// Which screen the client is on.
pub enum State {
    Authenticated(AuthenticatedState),
    SignedOut(SignedOutState),
}

/// The whole application state. `next_task_id` hands out fresh handles
/// for spawned background tasks: a handle is never reused.
pub struct App {
    pub state: State,
    pub error: Option<String>,
    pub loading: bool,
    pub should_close: bool,
    pub next_task_id: u64,
}

impl App {
    pub fn initial() -> (r: App)
        ensures
            r.state is SignedOut,
            r.error is None,
            !r.loading,
            !r.should_close,
            r.next_task_id == 0,
    {
        App {
            state: State::SignedOut(SignedOutState::new()),
            error: None,
            loading: false,
            should_close: false,
            next_task_id: 0,
        }
    }
}

/// An action from the sign-in screen.
#[derive(Debug)]
pub enum SignedOutAction {
    Signin,
    Register,
    Text(TextFieldAction),
    NextFocus,
    UnFocus,
    SignedIn(Result<String, Error>),
    Registered(Result<String, Error>),
}

/// An action from the authenticated screen.
#[derive(Debug)]
pub enum AuthenticatedAction {
    SelectNextRoom,
    SelectPrevRoom,
    EnterRoom,
    ExitRoom,
    SendMessage,
    ChatText(TextFieldAction),
    CreateRoomName(TextFieldAction),
    LoadUserProfile,
    UserprofileLoaded(Result<UserProfile, Error>),
    LoadRooms,
    RoomsLoaded(Result<Vec<Room>, Error>),
    PrevMessagesLoaded(Result<Vec<Message>, Error>),
    SyncMessages,
    LoadPrevMessages,
    MessageChanged(Message),
    Signout,
    SignoutCompleted(Result<(), Error>),
    ScrollMessagesUp,
    ScrollMessagesDown,
    StartCreatingRoom,
    CreateNewRoom,
    CancelNewRoom,
    NewRoomIsCreated(Result<Room, Error>),
    ListenForRoomStateChanges,
    UpdateRoomStates,
    RoomStatesUpdated(Result<Vec<RoomState>, Error>),
    MakeRoomAsSeen,
}

/// What the main loop processes, one at a time, in enqueue order.
#[derive(Debug)]
pub enum Action {
    SigneOut(SignedOutAction),
    Authenticated(AuthenticatedAction),
    Loading(bool),
    Close,
    CloseError,
}

/// A demonstration state: many rooms, many messages, one open room.
pub fn mock() -> (r: AuthenticatedState)
    ensures
        r.rooms@.len() == 50,
        r.current_room is Some,
        r.current_room.unwrap().messages@.len() == 100,
        r.current_room.unwrap().task_handles@.len() == 0,
{
    let mut rooms: Vec<Room> = Vec::new();
    let mut k: usize = 0;
    while k < 50
        invariant
            k <= 50,
            rooms@.len() == k,
        decreases 50 - k,
    {
        rooms.push(
            Room {
                id: "hello".to_owned(),
                name: "hello".to_owned(),
                create_date: 0,
                creator_id: "".to_owned(),
            },
        );
        k = k + 1;
    }
    let mut msgs: Vec<Message> = Vec::new();
    let mut m: usize = 0;
    while m < 100
        invariant
            m <= 100,
            msgs@.len() == m,
        decreases 100 - m,
    {
        msgs.push(
            Message {
                id: "msg1".to_owned(),
                content: "msg1".to_owned(),
                sender_id: "msg1".to_owned(),
                room_id: "msg1".to_owned(),
                create_date: 0,
                sender_name: "msg1".to_owned(),
            },
        );
        m = m + 1;
    }
    let room_name = rooms[0].name.clone();
    let room_id = rooms[0].id.clone();
    AuthenticatedState {
        token: String::new(),
        rooms,
        current_room_index: Some(0),
        current_room: Some(
            CurrentRoomState {
                messages: msgs,
                message_field: Textfield::new("message"),
                name: room_name,
                id: room_id,
                selected_message: 0,
                task_handles: Vec::new(),
            },
        ),
        selected_room_index: Some(0),
        profile: None,
        create_room: None,
        rooms_states: Vec::new(),
    }
}

} // verus!
