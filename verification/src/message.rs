//! The send pipeline: given what persistence reported, either refuse the
//! send with the surface's exact error, or build the message's event and
//! fan it out. The hub is touched only when the row was persisted:
//! persist-then-publish, never the reverse.
use crate::authentication::UserId;
use crate::base::{ApiResult, ApiResultBuilder, Error, RoomChange};
use crate::clock::now_seconds;
use crate::hub::{delivered, BroadcastHub};
use crate::ids::fresh_uuid;
use crate::models::{Message, SendMessageParams};
use vstd::prelude::*;

verus! {

/// Decide a send. `room_exists`, `insert_ok` and `sender_name` are what
/// the three persistence operations reported; the hub receives the event
/// exactly when all three succeeded, and the new message's id is
/// returned.
pub fn send(
    params: &SendMessageParams,
    user_id: &UserId,
    room_exists: bool,
    insert_ok: bool,
    sender_name: Option<String>,
    hub: &mut BroadcastHub,
) -> (r: ApiResult<String>)
    requires
        old(hub).wf(),
    ensures
        final(hub).wf(),
        final(hub).cap() == old(hub).cap(),
        final(hub).n_slots() == old(hub).n_slots(),
        forall|i: int|
            0 <= i < old(hub).n_slots() ==> #[trigger] final(hub).is_active(i) == old(
                hub,
            ).is_active(i),
        !(room_exists && insert_ok && sender_name is Some) ==> forall|i: int|
            0 <= i < old(hub).n_slots() ==> #[trigger] final(hub).buffer_of(i) == old(
                hub,
            ).buffer_of(i),
        !room_exists ==> (match r {
            Ok(_) => false,
            Err(e) => match e {
                Error::Logical(se) => se.msg@ == "Room doesn't exists."@,
                _ => false,
            },
        }),
        room_exists && sender_name is None ==> (match r {
            Ok(_) => false,
            Err(e) => match e {
                Error::Logical(se) => se.msg@ == "Can't find sender name"@,
                _ => false,
            },
        }),
        room_exists && sender_name is Some && !insert_ok ==> (match r {
            Ok(_) => false,
            Err(e) => match e {
                Error::Logical(se) => se.msg@ == "Can't send message."@,
                _ => false,
            },
        }),
        room_exists && sender_name is Some && insert_ok ==> (match r {
            Ok(res) => exists|m: Message|
                #![auto]
                {
                    &&& m.content@ == params.text@
                    &&& m.sender_id@ == user_id.id@
                    &&& m.room_id@ == params.room_id@
                    &&& m.sender_name@ == sender_name.unwrap()@
                    &&& res.data@ == m.id@
                    &&& forall|i: int|
                        0 <= i < old(hub).n_slots() && old(hub).is_active(i)
                            ==> #[trigger] final(hub).buffer_of(i) == delivered(
                            old(hub).buffer_of(i),
                            RoomChange { message: m },
                            old(hub).cap(),
                        )
                    &&& forall|i: int|
                        0 <= i < old(hub).n_slots() && !old(hub).is_active(i)
                            ==> #[trigger] final(hub).buffer_of(i) == old(hub).buffer_of(i)
                },
            Err(_) => false,
        }),
{
    if !room_exists {
        return ApiResultBuilder::err("Room doesn't exists.");
    }
    let name: String = match sender_name {
        Some(n) => n,
        None => {
            return ApiResultBuilder::err("Can't find sender name");
        },
    };
    if !insert_ok {
        return ApiResultBuilder::err("Can't send message.");
    }
    let message = Message {
        id: fresh_uuid(),
        content: params.text.clone(),
        sender_id: user_id.id.clone(),
        room_id: params.room_id.clone(),
        create_date: now_seconds(),
        sender_name: name,
    };
    let id = message.id.clone();
    let change = RoomChange { message };
    hub.publish(&change);
    proof {
        let m = change.message;
        assert(m.content@ == params.text@ && m.sender_id@ == user_id.id@ && m.room_id@
            == params.room_id@);
    }
    ApiResultBuilder::data(id)
}

} // verus!
