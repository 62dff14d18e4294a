use asterisk_ami::conn::{ConnectionCore, Dispatch};
use asterisk_ami::Tag;

#[test]
fn send_serializes_packet_with_terminating_blank_line() {
    let mut core = ConnectionCore::new();
    let pkt = vec![Tag::from("Action", "Login"), Tag::from("Username", "admin")];
    let wire = core.try_begin_send(&pkt).unwrap();
    assert_eq!(wire, "Action: Login\r\nUsername: admin\r\n\r\n");
    assert!(core.is_in_flight());
}

#[test]
fn second_send_waits_until_first_reply_is_delivered() {
    // The serialization invariant: while one command is in flight, a
    // second command's packet is not handed to the transport.
    let mut core = ConnectionCore::new();
    let first = vec![Tag::from("Action", "Ping")];
    let second = vec![Tag::from("Action", "Status")];
    assert!(core.try_begin_send(&first).is_some());
    assert_eq!(core.try_begin_send(&second), None);
    assert!(core.is_in_flight());

    // The first command's reply arrives and is dispatched to it.
    assert_eq!(core.on_line("Response: Pong"), Dispatch::Nothing);
    let d = core.on_line("");
    assert_eq!(
        d,
        Dispatch::Reply(vec![vec![Tag::from("Response", "Pong")]])
    );
    assert!(!core.is_in_flight());

    // Only now may the second command go out.
    let wire = core.try_begin_send(&second).unwrap();
    assert_eq!(wire, "Action: Status\r\n\r\n");
}

#[test]
fn events_are_published_even_while_a_command_is_in_flight() {
    let mut core = ConnectionCore::new();
    let cmd = vec![Tag::from("Action", "Ping")];
    assert!(core.try_begin_send(&cmd).is_some());
    assert_eq!(core.on_line("Event: PeerStatus"), Dispatch::Nothing);
    let d = core.on_line("");
    assert_eq!(d, Dispatch::Event(vec![Tag::from("Event", "PeerStatus")]));
    // The event did not consume the in-flight command.
    assert!(core.is_in_flight());
}

#[test]
fn unsolicited_reply_is_discarded() {
    let mut core = ConnectionCore::new();
    assert_eq!(core.on_line("Response: Success"), Dispatch::Nothing);
    // No command is in flight, so the completed reply goes nowhere.
    assert_eq!(core.on_line(""), Dispatch::Nothing);
    assert!(!core.is_in_flight());
}

#[test]
fn close_resolves_the_command_in_flight() {
    // On transport closure with a command in flight, that command must
    // be resolved rather than left hanging.
    let mut core = ConnectionCore::new();
    let cmd = vec![Tag::from("Action", "Ping")];
    assert!(core.try_begin_send(&cmd).is_some());
    assert!(core.on_close());
    assert!(!core.is_in_flight());
}

#[test]
fn close_with_nothing_in_flight_owes_nothing() {
    let mut core = ConnectionCore::new();
    assert!(!core.on_close());
}

#[test]
fn multi_packet_reply_reaches_the_waiting_command() {
    let mut core = ConnectionCore::new();
    let cmd = vec![Tag::from("Action", "SIPpeers")];
    assert!(core.try_begin_send(&cmd).is_some());
    assert_eq!(core.on_line("Response: Success"), Dispatch::Nothing);
    assert_eq!(core.on_line("EventList: start"), Dispatch::Nothing);
    assert_eq!(core.on_line(""), Dispatch::Nothing);
    assert_eq!(core.on_line("Event: PeerEntry"), Dispatch::Nothing);
    assert_eq!(core.on_line(""), Dispatch::Nothing);
    assert_eq!(core.on_line("EventList: Complete"), Dispatch::Nothing);
    let d = core.on_line("");
    assert_eq!(
        d,
        Dispatch::Reply(vec![
            vec![Tag::from("Response", "Success"), Tag::from("EventList", "start")],
            vec![Tag::from("Event", "PeerEntry")],
            vec![Tag::from("EventList", "Complete")],
        ])
    );
    assert!(!core.is_in_flight());
}
