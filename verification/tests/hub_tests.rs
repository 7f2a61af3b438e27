//! Tests of the broadcast hub, the room-stream filter, and the send
//! pipeline.
use qu_chat::authentication::UserId;
use qu_chat::base::{Error, RoomChange};
use qu_chat::hub::{stream_step, BroadcastHub, RecvOutcome, StreamStep};
use qu_chat::message::send;
use qu_chat::models::{Message, SendMessageParams};

fn msg(id: &str, room: &str) -> Message {
    Message {
        id: id.to_string(),
        content: format!("content of {}", id),
        sender_id: "s1".to_string(),
        room_id: room.to_string(),
        create_date: 1,
        sender_name: "Sender One".to_string(),
    }
}

#[test]
fn publish_delivers_to_both_filtered_subscribers() {
    let mut hub = BroadcastHub::new(1024);
    let a = hub.subscribe();
    let b = hub.subscribe();

    hub.publish(&RoomChange { message: msg("m1", "r1") });

    // both subscribers, filtering on r1, receive the event
    for id in [a, b] {
        let got = hub.try_next(id).expect("event delivered");
        match stream_step(RecvOutcome::Event(got), "r1") {
            StreamStep::Emit(m) => assert_eq!(m.id, "m1"),
            _ => panic!("an r1 event must be emitted to an r1 stream"),
        }
    }

    // an event for another room reaches the buffers but neither stream
    hub.publish(&RoomChange { message: msg("m2", "r2") });
    for id in [a, b] {
        let got = hub.try_next(id).expect("event delivered");
        assert!(matches!(stream_step(RecvOutcome::Event(got), "r1"), StreamStep::Skip));
    }
}

#[test]
fn subscription_starts_at_now_and_closure_stops_delivery() {
    let mut hub = BroadcastHub::new(8);
    let a = hub.subscribe();
    hub.publish(&RoomChange { message: msg("m1", "r1") });

    // a later subscriber replays nothing
    let late = hub.subscribe();
    assert!(hub.try_next(late).is_none());
    assert!(hub.try_next(a).is_some());

    hub.unsubscribe(a);
    hub.publish(&RoomChange { message: msg("m2", "r1") });
    assert!(hub.try_next(a).is_none());
    assert!(hub.try_next(late).is_some());
}

#[test]
fn slow_subscriber_drops_oldest_and_publisher_never_stalls() {
    let mut hub = BroadcastHub::new(2);
    let a = hub.subscribe();
    hub.publish(&RoomChange { message: msg("m1", "r1") });
    hub.publish(&RoomChange { message: msg("m2", "r1") });
    hub.publish(&RoomChange { message: msg("m3", "r1") });

    // m1 was dropped for the lagging subscriber
    assert_eq!(hub.try_next(a).unwrap().message.id, "m2");
    assert_eq!(hub.try_next(a).unwrap().message.id, "m3");
    assert!(hub.try_next(a).is_none());
}

#[test]
fn stream_survives_lag_and_ends_on_closure() {
    assert!(matches!(stream_step(RecvOutcome::Lagged, "r1"), StreamStep::Skip));
    assert!(matches!(stream_step(RecvOutcome::Closed, "r1"), StreamStep::Stop));
}

#[test]
fn send_pipeline_publishes_after_persisting() {
    let mut hub = BroadcastHub::new(16);
    let sub = hub.subscribe();
    let params = SendMessageParams {
        text: "hi there".to_string(),
        room_id: "general".to_string(),
    };
    let user = UserId { id: "u1".to_string(), token: "t".to_string() };

    let res = send(&params, &user, true, true, Some("Ada".to_string()), &mut hub)
        .expect("send succeeds");
    let delivered = hub.try_next(sub).expect("the event was fanned out");
    assert_eq!(delivered.message.id, res.data);
    assert_eq!(delivered.message.content, "hi there");
    assert_eq!(delivered.message.room_id, "general");
    assert_eq!(delivered.message.sender_id, "u1");
    assert_eq!(delivered.message.sender_name, "Ada");
}

#[test]
fn send_pipeline_error_cases_publish_nothing() {
    let mut hub = BroadcastHub::new(16);
    let sub = hub.subscribe();
    let params = SendMessageParams {
        text: "hi".to_string(),
        room_id: "nowhere".to_string(),
    };
    let user = UserId { id: "u1".to_string(), token: "t".to_string() };

    let r = send(&params, &user, false, true, Some("Ada".to_string()), &mut hub);
    assert!(matches!(r, Err(Error::Logical(se)) if se.msg == "Room doesn't exists."));

    let r = send(&params, &user, true, true, None, &mut hub);
    assert!(matches!(r, Err(Error::Logical(se)) if se.msg == "Can't find sender name"));

    let r = send(&params, &user, true, false, Some("Ada".to_string()), &mut hub);
    assert!(matches!(r, Err(Error::Logical(se)) if se.msg == "Can't send message."));

    // persist-then-publish: no failed send reached the hub
    assert!(hub.try_next(sub).is_none());
}
