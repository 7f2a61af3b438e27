//! Turning key presses into actions. The terminal delivers key events
//! outside the library; they arrive here as plain values and the
//! dispatch below decides, from the current state alone, which action
//! the main loop should process.
use crate::state::{
    Action, App, AuthenticatedAction, AuthenticatedState, SignedOutAction, SignedOutState, State,
    TextFieldAction,
};
use vstd::prelude::*;

verus! {

/// A key, reduced to what the dispatch reads.
#[derive(Debug, PartialEq, Eq, Structural, Clone, Copy)]
pub enum Key {
    Char(char),
    Enter,
    Esc,
    Tab,
    Up,
    Down,
    Backspace,
    Other,
}

/// A key press with its modifiers.
#[derive(Debug, PartialEq, Eq, Structural, Clone, Copy)]
pub struct KeyPress {
    pub code: Key,
    pub ctrl: bool,
    pub alt: bool,
}

/// The text edit a key press stands for, if any.
pub open spec fn text_action_spec(key: KeyPress) -> Option<TextFieldAction> {
    match key.code {
        Key::Char(ch) => Some(TextFieldAction::TextChanged(ch)),
        Key::Backspace => {
            if key.alt {
                Some(TextFieldAction::TextAllErased)
            } else {
                Some(TextFieldAction::TextErased)
            }
        },
        _ => None,
    }
}

pub fn try_handle_text_events(key: &KeyPress) -> (r: Option<TextFieldAction>)
    ensures
        r == text_action_spec(*key),
{
    match key.code {
        Key::Char(ch) => Some(TextFieldAction::TextChanged(ch)),
        Key::Backspace => {
            if key.alt {
                Some(TextFieldAction::TextAllErased)
            } else {
                Some(TextFieldAction::TextErased)
            }
        },
        _ => None,
    }
}

/// What the sign-in screen does with a key press.
pub open spec fn signed_out_action_spec(key: KeyPress) -> Option<SignedOutAction> {
    match key.code {
        Key::Tab => Some(SignedOutAction::NextFocus),
        Key::Esc => Some(SignedOutAction::UnFocus),
        Key::Char(c) => {
            if c == 'r' && key.ctrl {
                Some(SignedOutAction::Register)
            } else if c == 's' && key.ctrl {
                Some(SignedOutAction::Signin)
            } else {
                match text_action_spec(key) {
                    Some(a) => Some(SignedOutAction::Text(a)),
                    None => None,
                }
            }
        },
        _ => match text_action_spec(key) {
            Some(a) => Some(SignedOutAction::Text(a)),
            None => None,
        },
    }
}

impl SignedOutState {
    pub fn handle_key(&self, key: &KeyPress) -> (r: Option<Action>)
        ensures
            match signed_out_action_spec(*key) {
                Some(a) => r == Some(Action::SigneOut(a)),
                None => r is None,
            },
    {
        let action: Option<SignedOutAction> = match key.code {
            Key::Tab => Some(SignedOutAction::NextFocus),
            Key::Esc => Some(SignedOutAction::UnFocus),
            Key::Char(c) => {
                if c == 'r' && key.ctrl {
                    Some(SignedOutAction::Register)
                } else if c == 's' && key.ctrl {
                    Some(SignedOutAction::Signin)
                } else {
                    match try_handle_text_events(key) {
                        Some(a) => Some(SignedOutAction::Text(a)),
                        None => None,
                    }
                }
            },
            _ => match try_handle_text_events(key) {
                Some(a) => Some(SignedOutAction::Text(a)),
                None => None,
            },
        };
        match action {
            Some(a) => Some(Action::SigneOut(a)),
            None => None,
        }
    }
}

/// What the authenticated screen does with a key press, given which
/// panes are open.
pub open spec fn authenticated_action_spec(
    key: KeyPress,
    in_room: bool,
    creating: bool,
    selected: Option<usize>,
) -> Option<AuthenticatedAction> {
    match key.code {
        Key::Up => {
            if !in_room {
                Some(AuthenticatedAction::SelectPrevRoom)
            } else {
                Some(AuthenticatedAction::ScrollMessagesUp)
            }
        },
        Key::Down => {
            if !in_room {
                Some(AuthenticatedAction::SelectNextRoom)
            } else {
                Some(AuthenticatedAction::ScrollMessagesDown)
            }
        },
        Key::Enter => {
            if creating {
                Some(AuthenticatedAction::CreateNewRoom)
            } else if !in_room {
                match selected {
                    Some(_) => Some(AuthenticatedAction::EnterRoom),
                    None => None,
                }
            } else {
                Some(AuthenticatedAction::SendMessage)
            }
        },
        Key::Esc => {
            if creating {
                Some(AuthenticatedAction::CancelNewRoom)
            } else if in_room {
                Some(AuthenticatedAction::ExitRoom)
            } else {
                None
            }
        },
        Key::Char(c) => {
            if c == 's' && key.ctrl {
                Some(AuthenticatedAction::Signout)
            } else if c == 'r' && key.ctrl {
                Some(AuthenticatedAction::StartCreatingRoom)
            } else if creating {
                match text_action_spec(key) {
                    Some(a) => Some(AuthenticatedAction::CreateRoomName(a)),
                    None => None,
                }
            } else if in_room {
                match text_action_spec(key) {
                    Some(a) => Some(AuthenticatedAction::ChatText(a)),
                    None => None,
                }
            } else {
                None
            }
        },
        Key::Backspace => {
            if creating {
                match text_action_spec(key) {
                    Some(a) => Some(AuthenticatedAction::CreateRoomName(a)),
                    None => None,
                }
            } else if in_room {
                match text_action_spec(key) {
                    Some(a) => Some(AuthenticatedAction::ChatText(a)),
                    None => None,
                }
            } else {
                None
            }
        },
        _ => None,
    }
}

impl AuthenticatedState {
    pub fn handle_key(&self, key: &KeyPress) -> (r: Option<Action>)
        ensures
            match authenticated_action_spec(
                *key,
                self.current_room is Some,
                self.create_room is Some,
                self.selected_room_index,
            ) {
                Some(a) => r == Some(Action::Authenticated(a)),
                None => r is None,
            },
    {
        let in_room: bool = self.current_room.is_some();
        let creating: bool = self.create_room.is_some();
        let action: Option<AuthenticatedAction> = match key.code {
            Key::Up => {
                if !in_room {
                    Some(AuthenticatedAction::SelectPrevRoom)
                } else {
                    Some(AuthenticatedAction::ScrollMessagesUp)
                }
            },
            Key::Down => {
                if !in_room {
                    Some(AuthenticatedAction::SelectNextRoom)
                } else {
                    Some(AuthenticatedAction::ScrollMessagesDown)
                }
            },
            Key::Enter => {
                if creating {
                    Some(AuthenticatedAction::CreateNewRoom)
                } else if !in_room {
                    match self.selected_room_index {
                        Some(_) => Some(AuthenticatedAction::EnterRoom),
                        None => None,
                    }
                } else {
                    Some(AuthenticatedAction::SendMessage)
                }
            },
            Key::Esc => {
                if creating {
                    Some(AuthenticatedAction::CancelNewRoom)
                } else if in_room {
                    Some(AuthenticatedAction::ExitRoom)
                } else {
                    None
                }
            },
            Key::Char(c) => {
                if c == 's' && key.ctrl {
                    Some(AuthenticatedAction::Signout)
                } else if c == 'r' && key.ctrl {
                    Some(AuthenticatedAction::StartCreatingRoom)
                } else if creating {
                    match try_handle_text_events(key) {
                        Some(a) => Some(AuthenticatedAction::CreateRoomName(a)),
                        None => None,
                    }
                } else if in_room {
                    match try_handle_text_events(key) {
                        Some(a) => Some(AuthenticatedAction::ChatText(a)),
                        None => None,
                    }
                } else {
                    None
                }
            },
            Key::Backspace => {
                if creating {
                    match try_handle_text_events(key) {
                        Some(a) => Some(AuthenticatedAction::CreateRoomName(a)),
                        None => None,
                    }
                } else if in_room {
                    match try_handle_text_events(key) {
                        Some(a) => Some(AuthenticatedAction::ChatText(a)),
                        None => None,
                    }
                } else {
                    None
                }
            },
            _ => None,
        };
        match action {
            Some(a) => Some(Action::Authenticated(a)),
            None => None,
        }
    }
}

impl State {
    pub fn handle_key(&self, key: &KeyPress) -> (r: Option<Action>)
        ensures
            match self {
                State::SignedOut(s) => (match signed_out_action_spec(*key) {
                    Some(a) => r == Some(Action::SigneOut(a)),
                    None => r is None,
                }),
                State::Authenticated(s) => (match authenticated_action_spec(
                    *key,
                    s.current_room is Some,
                    s.create_room is Some,
                    s.selected_room_index,
                ) {
                    Some(a) => r == Some(Action::Authenticated(a)),
                    None => r is None,
                }),
            },
    {
        match self {
            State::SignedOut(s) => s.handle_key(key),
            State::Authenticated(s) => s.handle_key(key),
        }
    }
}

/// Decide what one key press means for the whole application: quitting
/// and banner dismissal first, then the current screen, then the plain
/// `q` fallback.
pub fn key_action(app: &App, key: &KeyPress) -> (r: Option<Action>)
    ensures
        key.code == Key::Char('c') && key.ctrl ==> r == Some(Action::Close),
        key.code == Key::Enter && app.error is Some ==> r == Some(Action::CloseError),
{
    if key.ctrl {
        match key.code {
            Key::Char(c) => {
                if c == 'c' {
                    return Some(Action::Close);
                }
            },
            _ => {},
        }
    }
    if app.error.is_some() {
        match key.code {
            Key::Enter => {
                return Some(Action::CloseError);
            },
            _ => {},
        }
    }
    let state_action = app.state.handle_key(key);
    if state_action.is_some() {
        return state_action;
    }
    match key.code {
        Key::Char(c) => {
            if c == 'q' && !key.ctrl {
                Some(Action::Close)
            } else {
                None
            }
        },
        _ => None,
    }
}

} // verus!
