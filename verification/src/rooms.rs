//! Room endpoints' decision logic: the online-user status mailbox, room
//! creation, the room-unread computation, the last-seen upsert, and the
//! room-state change stream's filter.
use crate::authentication::UserId;
use crate::base::{
    mailbox_try_recv, mailbox_try_send, ApiResult, ApiResultBuilder, Error, RoomChange, Rx, Tx,
};
use crate::clock::now_seconds;
use crate::hub::RecvOutcome;
use crate::ids::fresh_uuid;
use crate::models::{CreateRoomParam, Message, Room, RoomState};
use crate::strings::str_eq;
use vstd::prelude::*;

verus! {

/// The users currently online, as broadcast through the status mailbox.
pub struct RoomsStatus {
    pub online_users: Vec<String>,
}

/// A marker event telling listeners to re-fetch room states.
#[derive(Debug)]
pub struct RoomsStateChange;

impl RoomsStatus {
    pub fn new() -> (r: RoomsStatus)
        ensures
            r.online_users@.len() == 0,
    {
        RoomsStatus { online_users: Vec::new() }
    }

    /// Record a user as online.
    pub fn add_user(&mut self, id: String)
        ensures
            final(self).online_users@ == old(self).online_users@.push(id),
    {
        self.online_users.push(id);
    }

    /// Index of the first entry naming this user.
    pub open spec fn first_entry(&self, id: Seq<char>) -> Option<int> {
        if exists|i: int| 0 <= i < self.online_users@.len() && (#[trigger] self.online_users@[i])@
            == id {
            Some(
                choose|i: int|
                    0 <= i < self.online_users@.len() && (#[trigger] self.online_users@[i])@ == id
                        && forall|j: int|
                        0 <= j < i ==> (#[trigger] self.online_users@[j])@ != id,
            )
        } else {
            None
        }
    }

    /// Remove the first entry naming this user, if any.
    pub fn remove_user(&mut self, id: &str)
        ensures
            match old(self).first_entry(id@) {
                None => final(self).online_users@ == old(self).online_users@,
                Some(p) => final(self).online_users@ == old(self).online_users@.remove(p),
            },
    {
        let n: usize = self.online_users.len();
        let mut i: usize = 0;
        while i < n
            invariant
                i <= n,
                n == self.online_users@.len(),
                self.online_users@ == old(self).online_users@,
                forall|j: int| 0 <= j < i ==> (#[trigger] self.online_users@[j])@ != id@,
            decreases n - i,
        {
            if str_eq(self.online_users[i].as_str(), id) {
                proof {
                    let w: int = i as int;
                    assert(0 <= w < self.online_users@.len() && (self.online_users@[w])@ == id@
                        && forall|j: int|
                        0 <= j < w ==> (#[trigger] self.online_users@[j])@ != id@);
                    let p = old(self).first_entry(id@).unwrap();
                    assert((old(self).online_users@[p])@ == id@);
                    if p < w {
                        assert((self.online_users@[p])@ != id@);
                    }
                    if w < p {
                        assert((old(self).online_users@[w])@ != id@);
                    }
                    assert(p == w);
                }
                self.online_users.remove(i);
                return ;
            }
            i = i + 1;
        }
    }
}

/// Come online: fold the id into the current status and post it back.
/// The mailbox's state is outside this library's contracts.
pub fn insert_online_user(id: String, rx: &Rx<RoomsStatus>, tx: &Tx<RoomsStatus>) {
    let mut status = match mailbox_try_recv(rx) {
        Some(s) => s,
        None => RoomsStatus::new(),
    };
    status.add_user(id);
    let _ = mailbox_try_send(tx, status);
}

/// Go offline: drop the id from the current status and post it back.
pub fn remove_online_user(id: &str, rx: &Rx<RoomsStatus>, tx: &Tx<RoomsStatus>) {
    let mut status = match mailbox_try_recv(rx) {
        Some(s) => s,
        None => RoomsStatus::new(),
    };
    status.remove_user(id);
    let _ = mailbox_try_send(tx, status);
}

/// The current status, or an empty one when nothing is posted.
pub fn rooms_status(rx: &Rx<RoomsStatus>) -> RoomsStatus {
    match mailbox_try_recv(rx) {
        Some(s) => s,
        None => RoomsStatus::new(),
    }
}

// ------------------------------------------------------------------
// Room creation
// ------------------------------------------------------------------
/// The row for a new room: a fresh id, the requested name, the creator,
/// and the current time.
pub fn new_room(param: &CreateRoomParam, user_id: &UserId) -> (room: Room)
    ensures
        room.name@ == param.name@,
        room.creator_id@ == user_id.id@,
        room.id@.len() == 36,
{
    Room {
        id: fresh_uuid(),
        name: param.name.clone(),
        creator_id: user_id.id.clone(),
        create_date: now_seconds(),
    }
}

/// The response once the room's row has (or has not) been persisted.
pub fn insert_room_outcome(insert_ok: bool, room: Room) -> (r: ApiResult<Room>)
    ensures
        insert_ok ==> (match r {
            Ok(res) => res.data == room,
            Err(_) => false,
        }),
        !insert_ok ==> (match r {
            Ok(_) => false,
            Err(e) => match e {
                Error::Logical(se) => se.msg@ == "Failed to create room"@,
                _ => false,
            },
        }),
{
    if insert_ok {
        ApiResultBuilder::data(room)
    } else {
        ApiResultBuilder::err("Failed to create room")
    }
}

// ------------------------------------------------------------------
// Room-unread computation
// ------------------------------------------------------------------
/// The caller's last-seen entry for a room, among the rows fetched for
/// them: the first row for that room, if any. The timestamp itself is
/// nullable.
pub open spec fn seen_lookup(seen: Seq<(String, Option<i64>)>, room: Seq<char>) -> Option<
    Option<i64>,
>
    decreases seen.len(),
{
    if seen.len() == 0 {
        None
    } else if (seen[0].0)@ == room {
        Some(seen[0].1)
    } else {
        seen_lookup(seen.skip(1), room)
    }
}

/// Whether a room is unread: a room with no last-seen record always is; a
/// recorded last-seen (a missing timestamp counts as zero) leaves the
/// room unread exactly when someone else's latest message is newer.
pub open spec fn room_unread(seen_entry: Option<Option<i64>>, latest_other: int) -> bool {
    match seen_entry {
        None => true,
        Some(s) => latest_other > (match s {
            None => 0int,
            Some(v) => v as int,
        }),
    }
}

/// Look a room up among the caller's last-seen rows.
fn seen_lookup_exec(seen: &Vec<(String, Option<i64>)>, room: &str) -> (r: Option<Option<i64>>)
    ensures
        r == seen_lookup(seen@, room@),
{
    let n: usize = seen.len();
    let mut i: usize = 0;
    proof {
        assert(seen@.skip(0) =~= seen@);
    }
    while i < n
        invariant
            i <= n,
            n == seen@.len(),
            seen_lookup(seen@, room@) == seen_lookup(seen@.skip(i as int), room@),
        decreases n - i,
    {
        proof {
            assert(seen@.skip(i as int)[0] == seen@[i as int]);
            assert(seen@.skip(i as int).skip(1) =~= seen@.skip(i + 1));
        }
        if str_eq(seen[i].0.as_str(), room) {
            return Some(seen[i].1);
        }
        i = i + 1;
    }
    proof {
        assert(seen@.skip(n as int).len() == 0);
    }
    None
}

/// Compute the per-room unread flags: one state for each room that has a
/// latest message from someone else, in the order given.
pub fn rooms_state_rows(
    last_seen: &Vec<(String, Option<i64>)>,
    last_message: &Vec<(String, i64)>,
) -> (r: Vec<RoomState>)
    ensures
        r@.len() == last_message@.len(),
        forall|i: int|
            0 <= i < last_message@.len() ==> {
                &&& (#[trigger] r@[i]).room_id@ == (last_message@[i].0)@
                &&& r@[i].has_unread == room_unread(
                    seen_lookup(last_seen@, (last_message@[i].0)@),
                    last_message@[i].1 as int,
                )
            },
{
    let n: usize = last_message.len();
    let mut out: Vec<RoomState> = Vec::new();
    let mut i: usize = 0;
    while i < n
        invariant
            i <= n,
            n == last_message@.len(),
            out@.len() == i,
            forall|j: int|
                0 <= j < i ==> {
                    &&& (#[trigger] out@[j]).room_id@ == (last_message@[j].0)@
                    &&& out@[j].has_unread == room_unread(
                        seen_lookup(last_seen@, (last_message@[j].0)@),
                        last_message@[j].1 as int,
                    )
                },
        decreases n - i,
    {
        let room_id: String = last_message[i].0.clone();
        let ts: i64 = last_message[i].1;
        let seen = seen_lookup_exec(last_seen, room_id.as_str());
        let has_unread: bool = match seen {
            None => true,
            Some(s) => ts > (match s {
                None => 0i64,
                Some(v) => v,
            }),
        };
        out.push(RoomState { room_id, has_unread });
        i = i + 1;
    }
    out
}

/// The endpoint's outcome: the flags when both queries succeeded, the
/// surface's error otherwise.
pub fn rooms_state_outcome(
    last_seen: Option<Vec<(String, Option<i64>)>>,
    last_message: Option<Vec<(String, i64)>>,
) -> (r: ApiResult<Vec<RoomState>>)
    ensures
        match (last_seen, last_message) {
            (Some(seen), Some(msgs)) => match r {
                Ok(res) => {
                    &&& res.data@.len() == msgs@.len()
                    &&& forall|i: int|
                        0 <= i < msgs@.len() ==> {
                            &&& (#[trigger] res.data@[i]).room_id@ == (msgs@[i].0)@
                            &&& res.data@[i].has_unread == room_unread(
                                seen_lookup(seen@, (msgs@[i].0)@),
                                msgs@[i].1 as int,
                            )
                        }
                },
                Err(_) => false,
            },
            _ => match r {
                Ok(_) => false,
                Err(e) => match e {
                    Error::Logical(se) => se.msg@ == "Unable to get room states"@,
                    _ => false,
                },
            },
        },
{
    match (last_seen, last_message) {
        (Some(seen), Some(msgs)) => ApiResultBuilder::data(rooms_state_rows(&seen, &msgs)),
        _ => ApiResultBuilder::err("Unable to get room states"),
    }
}

// ------------------------------------------------------------------
// The latest message from someone else (what feeds the unread flags)
// ------------------------------------------------------------------
/// The newest `create_date` among messages of `room` sent by anyone but
/// `caller`.
pub open spec fn latest_other_spec(ms: Seq<Message>, room: Seq<char>, caller: Seq<char>) -> Option<
    int,
>
    decreases ms.len(),
{
    if ms.len() == 0 {
        None
    } else {
        let rest = latest_other_spec(ms.skip(1), room, caller);
        if (ms[0].room_id)@ == room && (ms[0].sender_id)@ != caller {
            match rest {
                None => Some(ms[0].create_date as int),
                Some(v) => if ms[0].create_date as int > v {
                    Some(ms[0].create_date as int)
                } else {
                    Some(v)
                },
            }
        } else {
            rest
        }
    }
}

/// A message sent by the caller never changes what the unread flags are
/// computed from.
pub proof fn lemma_own_message_ignored(ms: Seq<Message>, m: Message, room: Seq<char>, caller: Seq<char>)
    requires
        (m.sender_id)@ == caller,
    ensures
        latest_other_spec(ms.push(m), room, caller) == latest_other_spec(ms, room, caller),
    decreases ms.len(),
{
    if ms.len() == 0 {
        assert(ms.push(m)[0] == m);
        assert(ms.push(m).skip(1) =~= Seq::<Message>::empty());
        assert(latest_other_spec(ms.push(m), room, caller) is None);
    } else {
        assert(ms.push(m)[0] == ms[0]);
        assert(ms.push(m).skip(1) =~= ms.skip(1).push(m));
        lemma_own_message_ignored(ms.skip(1), m, room, caller);
        assert(latest_other_spec(ms.push(m).skip(1), room, caller) == latest_other_spec(
            ms.skip(1),
            room,
            caller,
        ));
    }
}

/// Someone else's message in the room is never newer than the computed
/// latest; in particular one newer than the last-seen instant makes the
/// room unread.
pub proof fn lemma_other_message_marks_unread(
    ms: Seq<Message>,
    k: int,
    room: Seq<char>,
    caller: Seq<char>,
    last_seen: i64,
)
    requires
        0 <= k < ms.len(),
        (ms[k].room_id)@ == room,
        (ms[k].sender_id)@ != caller,
        ms[k].create_date > last_seen,
        last_seen >= 0,
    ensures
        latest_other_spec(ms, room, caller) is Some,
        latest_other_spec(ms, room, caller).unwrap() >= ms[k].create_date as int,
        room_unread(
            Some(Some(last_seen)),
            latest_other_spec(ms, room, caller).unwrap(),
        ),
    decreases ms.len(),
{
    if k == 0 {
    } else {
        assert(ms.skip(1)[k - 1] == ms[k]);
        lemma_other_message_marks_unread(ms.skip(1), k - 1, room, caller, last_seen);
    }
}

// ------------------------------------------------------------------
// Last-seen upsert
// ------------------------------------------------------------------
/// A `room_state` row: when this user last looked at this room.
pub struct RoomSeenRecord {
    pub id: String,
    pub user_id: String,
    pub room_id: String,
    pub last_seen: Option<i64>,
}

/// What the upsert will run: update the existing row, or insert a fresh
/// one.
pub enum RoomSeenPlan {
    UpdateExisting { id: String },
    InsertNew { id: String },
}

/// Decide the upsert from the fetched row: an existing row is updated in
/// place; otherwise a row with a fresh id is inserted.
pub fn update_room_state_plan(existing: Option<RoomSeenRecord>) -> (r: RoomSeenPlan)
    ensures
        match existing {
            Some(rec) => r == (RoomSeenPlan::UpdateExisting { id: rec.id }),
            None => r matches RoomSeenPlan::InsertNew { id } && id@.len() == 36,
        },
{
    match existing {
        Some(rec) => RoomSeenPlan::UpdateExisting { id: rec.id },
        None => RoomSeenPlan::InsertNew { id: fresh_uuid() },
    }
}

/// The endpoint's response once the upsert ran (or the fetch failed).
pub fn update_room_state_outcome(write_ok: bool) -> (r: ApiResult<String>)
    ensures
        write_ok ==> (match r {
            Ok(res) => res.data@ == "Successfully set state"@,
            Err(_) => false,
        }),
        !write_ok ==> (match r {
            Ok(_) => false,
            Err(e) => match e {
                Error::Logical(se) => se.msg@ == "Unable to set state"@,
                _ => false,
            },
        }),
{
    if write_ok {
        ApiResultBuilder::data("Successfully set state".to_owned())
    } else {
        ApiResultBuilder::err("Unable to set state")
    }
}

// ------------------------------------------------------------------
// The room-state change stream
// ------------------------------------------------------------------
/// What the state-events stream does with one receive outcome.
pub enum StateStreamStep {
    Notify,
    Skip,
    Stop,
}

/// Whether any of the watched rooms is the event's room.
pub open spec fn watches(room_ids: Seq<String>, room: Seq<char>) -> bool {
    exists|i: int| 0 <= i < room_ids.len() && (#[trigger] room_ids[i])@ == room
}

/// The filter of the state-events stream: an event for any watched room
/// produces an (empty) notification; lag is survived; closure ends the
/// stream.
pub fn state_stream_step(outcome: RecvOutcome, room_ids: &Vec<String>) -> (r: StateStreamStep)
    ensures
        match outcome {
            RecvOutcome::Event(ch) => {
                if watches(room_ids@, (ch.message.room_id)@) {
                    r == StateStreamStep::Notify
                } else {
                    r == StateStreamStep::Skip
                }
            },
            RecvOutcome::Lagged => r == StateStreamStep::Skip,
            RecvOutcome::Closed => r == StateStreamStep::Stop,
        },
{
    match outcome {
        RecvOutcome::Event(ch) => {
            if watches_room(room_ids, ch.message.room_id.as_str()) {
                StateStreamStep::Notify
            } else {
                StateStreamStep::Skip
            }
        },
        RecvOutcome::Lagged => StateStreamStep::Skip,
        RecvOutcome::Closed => StateStreamStep::Stop,
    }
}

/// Whether `room` is one of the watched rooms.
pub fn watches_room(room_ids: &Vec<String>, room: &str) -> (r: bool)
    ensures
        r == watches(room_ids@, room@),
{
    let n: usize = room_ids.len();
    let mut i: usize = 0;
    while i < n
        invariant
            i <= n,
            n == room_ids@.len(),
            forall|j: int| 0 <= j < i ==> (#[trigger] room_ids@[j])@ != room@,
        decreases n - i,
    {
        if str_eq(room_ids[i].as_str(), room) {
            proof {
                let w: int = i as int;
                assert(0 <= w < room_ids@.len() && (#[trigger] room_ids@[w])@ == room@);
            }
            return true;
        }
        i = i + 1;
    }
    false
}

} // verus!
