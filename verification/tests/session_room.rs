use webex::error::Error;
use webex::http::RetryPolicy;
use webex::room::{decode_room, encode_room, encode_rooms, rooms_from_body, Room, RoomType};
use webex::session::{
    decode_event, encode_event, Delivered, Event, ReconnectStep, Session, SessionState,
};

fn sample_room() -> Room {
    Room {
        id: "r-100".to_string(),
        title: Some("Team \"Alpha\" \\ Ops".to_string()),
        room_type: RoomType::Group,
        created: "2024-05-06T07:08:09.000Z".to_string(),
    }
}

fn connected_session() -> Session {
    let mut session = Session::new(RetryPolicy::new());
    session.connect().expect("a fresh session accepts connect");
    session.on_connect_ok();
    session
}

#[test]
fn room_round_trips_through_its_wire_form() {
    let room = sample_room();
    let encoded = encode_room(&room);
    let decoded = decode_room(encoded.as_str()).expect("the canonical form decodes");
    assert_eq!(decoded, room);
}

#[test]
fn untitled_direct_room_round_trips() {
    let room = Room {
        id: String::new(),
        title: None,
        room_type: RoomType::Direct,
        created: String::new(),
    };
    let encoded = encode_room(&room);
    let decoded = decode_room(encoded.as_str()).expect("the canonical form decodes");
    assert_eq!(decoded, room);
}

#[test]
fn room_encoding_is_exactly_the_canonical_text() {
    let room = Room {
        id: "r1".to_string(),
        title: Some("Team".to_string()),
        room_type: RoomType::Group,
        created: "2024-01-01T00:00:00.000Z".to_string(),
    };
    assert_eq!(
        encode_room(&room),
        "{\"id\":\"r1\",\"title\":\"Team\",\"type\":\"group\",\"created\":\"2024-01-01T00:00:00.000Z\"}"
    );
}

#[test]
fn malformed_rooms_are_refused() {
    assert!(decode_room("").is_none());
    assert!(decode_room("{\"id\":\"r1\"}").is_none());
    assert!(decode_room("{\"id\":\"r1\",\"title\":null,\"type\":\"direct\",\"created\":\"x\"} ").is_none());
    assert!(decode_room("{\"id\":\"r1\",\"title\":null,\"type\":\"other\",\"created\":\"x\"}").is_none());
}

#[test]
fn room_lists_round_trip_through_the_reply_form() {
    let rooms = vec![
        sample_room(),
        Room {
            id: "r2".to_string(),
            title: None,
            room_type: RoomType::Direct,
            created: "2024-06-01T00:00:00.000Z".to_string(),
        },
    ];
    let body = encode_rooms(&rooms);
    let decoded = rooms_from_body(body.as_str()).expect("the canonical reply decodes");
    assert_eq!(decoded, rooms);
}

#[test]
fn the_empty_room_list_round_trips() {
    let rooms: Vec<Room> = Vec::new();
    let body = encode_rooms(&rooms);
    assert_eq!(body, "{\"items\":[]}");
    let decoded = rooms_from_body(body.as_str()).expect("the canonical reply decodes");
    assert!(decoded.is_empty());
}

#[test]
fn a_reply_that_is_no_room_list_is_a_decode_failure() {
    match rooms_from_body("{\"rooms\":[]}") {
        Err(Error::Decode(_)) => {},
        _ => panic!("a non-canonical reply must be a decode failure"),
    }
}

#[test]
fn event_round_trips_through_its_frame_form() {
    let event = Event { id: "e1".to_string(), data: "say \"hi\"".to_string() };
    let frame = encode_event(&event);
    let decoded = decode_event(frame.as_str()).expect("the canonical frame decodes");
    assert_eq!(decoded, event);
}

#[test]
fn session_connect_walks_the_documented_states() {
    let mut session = Session::new(RetryPolicy::new());
    assert_eq!(session.state(), SessionState::Disconnected);
    session.connect().expect("a fresh session accepts connect");
    assert_eq!(session.state(), SessionState::Connecting);
    session.on_connect_ok();
    assert_eq!(session.state(), SessionState::Connected);
}

#[test]
fn connecting_twice_is_invalid_usage() {
    let mut session = connected_session();
    match session.connect() {
        Err(Error::InvalidUsage(_)) => {},
        _ => panic!("connect while connected must be refused"),
    }
    assert_eq!(session.state(), SessionState::Connected);
}

#[test]
fn a_failed_connect_surfaces_its_cause_and_rests() {
    let mut session = Session::new(RetryPolicy::new());
    session.connect().expect("a fresh session accepts connect");
    let e = session.on_connect_failed(false, "dns lookup failed".to_string());
    assert_eq!(e, Error::TransportIo("dns lookup failed".to_string()));
    assert_eq!(session.state(), SessionState::Disconnected);

    session.connect().expect("a resting session accepts connect");
    let e = session.on_connect_failed(true, String::new());
    assert_eq!(e, Error::AuthenticationFailure);
    assert_eq!(session.state(), SessionState::Disconnected);
}

#[test]
fn frames_are_delivered_in_arrival_order() {
    let mut session = connected_session();
    let frames = vec![
        "{\"id\":\"e1\",\"data\":\"one\"}".to_string(),
        "{\"id\":\"e2\",\"data\":\"two\"}".to_string(),
        "{\"id\":\"e3\",\"data\":\"three\"}".to_string(),
    ];
    let out = session.on_frames(&frames);
    assert_eq!(out.len(), 3);
    let expected = ["one", "two", "three"];
    for (k, d) in out.iter().enumerate() {
        match d {
            Delivered::Event(e) => assert_eq!(e.data, expected[k]),
            _ => panic!("a well-formed frame must be delivered as its event"),
        }
    }
    assert_eq!(session.state(), SessionState::Connected);
}

#[test]
fn one_malformed_frame_keeps_the_session_connected() {
    let mut session = connected_session();
    let frames = vec![
        "{\"id\":\"e1\",\"data\":\"before\"}".to_string(),
        "not a frame".to_string(),
        "{\"id\":\"e2\",\"data\":\"after\"}".to_string(),
    ];
    let out = session.on_frames(&frames);
    assert_eq!(out.len(), 3);
    match &out[0] {
        Delivered::Event(e) => assert_eq!(e.id, "e1"),
        _ => panic!("the first frame is well formed"),
    }
    match &out[1] {
        Delivered::Fault(Error::ProtocolViolation(_)) => {},
        _ => panic!("the malformed frame must be one protocol violation"),
    }
    match &out[2] {
        Delivered::Event(e) => assert_eq!(e.id, "e2"),
        _ => panic!("the stream survives one malformed frame"),
    }
    assert_eq!(session.state(), SessionState::Connected);
}

#[test]
fn remote_close_scenario_reconnects_after_a_backoff() {
    let mut session = connected_session();
    let (delivered, step) = session.on_closure("idle timeout".to_string());
    match delivered {
        Delivered::Fault(e) => {
            assert_eq!(e, Error::ConnectionClosed("idle timeout".to_string()));
        },
        _ => panic!("an unexpected closure must surface one connection-closed fault"),
    }
    assert_eq!(step, ReconnectStep::Reconnect(1));
    assert_eq!(session.state(), SessionState::Connecting);

    session.on_connect_ok();
    assert_eq!(session.state(), SessionState::Connected);
}

#[test]
fn reconnects_stop_when_the_budget_is_spent() {
    let policy = RetryPolicy { max_attempts: 0, base_backoff_secs: 1, max_wait_secs: 60 };
    let mut session = Session::new(policy);
    session.connect().expect("a fresh session accepts connect");
    session.on_connect_ok();
    let (_, step) = session.on_closure("gone".to_string());
    assert_eq!(step, ReconnectStep::GiveUp);
    assert_eq!(session.state(), SessionState::Disconnected);
}

#[test]
fn requested_closure_never_reconnects() {
    let mut session = connected_session();
    session.close();
    assert_eq!(session.state(), SessionState::Closing);
    session.on_close_complete();
    assert_eq!(session.state(), SessionState::Disconnected);

    let mut resting = Session::new(RetryPolicy::new());
    resting.close();
    assert_eq!(resting.state(), SessionState::Disconnected);
}
