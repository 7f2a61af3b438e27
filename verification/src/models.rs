//! The data carried between server and client: messages, rooms, room
//! states, user profiles, and the request/response shapes of the HTTP
//! surface.
use vstd::prelude::*;

verus! {

/// One chat message, as persisted and as broadcast.
#[derive(Debug)]
pub struct Message {
    pub id: String,
    pub content: String,
    pub sender_id: String,
    pub room_id: String,
    pub create_date: i64,
    pub sender_name: String,
}

impl Clone for Message {
    fn clone(&self) -> (r: Self)
        ensures
            r == *self,
    {
        Message {
            id: self.id.clone(),
            content: self.content.clone(),
            sender_id: self.sender_id.clone(),
            room_id: self.room_id.clone(),
            create_date: self.create_date,
            sender_name: self.sender_name.clone(),
        }
    }
}

#[derive(Debug)]
pub struct Room {
    pub id: String,
    pub name: String,
    pub creator_id: String,
    pub create_date: i64,
}

impl Clone for Room {
    fn clone(&self) -> (r: Self)
        ensures
            r == *self,
    {
        Room {
            id: self.id.clone(),
            name: self.name.clone(),
            creator_id: self.creator_id.clone(),
            create_date: self.create_date,
        }
    }
}

/// Whether a room holds anything its viewer has not seen.
#[derive(Debug)]
pub struct RoomState {
    pub room_id: String,
    pub has_unread: bool,
}

impl Clone for RoomState {
    fn clone(&self) -> (r: Self)
        ensures
            r == *self,
    {
        RoomState { room_id: self.room_id.clone(), has_unread: self.has_unread }
    }
}

#[derive(Debug)]
pub struct UserProfile {
    pub id: String,
    pub name: String,
}

impl Clone for UserProfile {
    fn clone(&self) -> (r: Self)
        ensures
            r == *self,
    {
        UserProfile { id: self.id.clone(), name: self.name.clone() }
    }
}

/// A stored user: the secret is the one-way hash of the password.
#[derive(Debug)]
pub struct User {
    pub id: String,
    pub name: String,
    pub secret: String,
}

#[derive(Debug)]
pub struct RegisterParams {
    pub username: String,
    pub password: String,
}

#[derive(Debug)]
pub struct RegisterResponse {
    pub token: String,
}

#[derive(Debug)]
pub struct SignInParams {
    pub username: String,
    pub password: String,
}

#[derive(Debug)]
pub struct SignInResponse {
    pub token: String,
}

#[derive(Debug)]
pub struct CreateRoomParam {
    pub name: String,
}

#[derive(Debug)]
pub struct SendMessageParams {
    pub text: String,
    pub room_id: String,
}

} // verus!
