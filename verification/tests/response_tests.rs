use asterisk_ami::response::{line_to_tag, Response, ResponseBuilder};
use asterisk_ami::{packet_to_string, Tag};

#[test]
fn line_to_tag_splits_at_first_colon() {
    let t = line_to_tag("Response: Success").unwrap();
    assert_eq!(t.key, "Response");
    assert_eq!(t.value, "Success");
}

#[test]
fn line_to_tag_strips_extra_spaces_after_colon() {
    let t = line_to_tag("Key:     spaced value").unwrap();
    assert_eq!(t.key, "Key");
    assert_eq!(t.value, "spaced value");
}

#[test]
fn line_to_tag_keeps_later_colons_in_value() {
    let t = line_to_tag("Date: 12:30:45").unwrap();
    assert_eq!(t.key, "Date");
    assert_eq!(t.value, "12:30:45");
}

#[test]
fn line_to_tag_without_colon_is_noise() {
    assert_eq!(line_to_tag("Asterisk Call Manager/1.1"), None);
    assert_eq!(line_to_tag(""), None);
    assert_eq!(line_to_tag("   "), None);
}

#[test]
fn line_to_tag_allows_empty_key_and_value() {
    let t = line_to_tag(": v").unwrap();
    assert_eq!(t.key, "");
    assert_eq!(t.value, "v");
    let t = line_to_tag("k:").unwrap();
    assert_eq!(t.key, "k");
    assert_eq!(t.value, "");
}

#[test]
fn tag_round_trip_reproduces_key_and_value() {
    // Parsing a well-formed line and serializing the tag again gives the
    // same pair, however many spaces stood after the colon.
    for line in ["Key: value", "Key:value", "Key:      value"] {
        let t = line_to_tag(line).unwrap();
        assert_eq!(t.key, "Key");
        assert_eq!(t.value, "value");
        let rendered = packet_to_string(&vec![t]);
        assert_eq!(rendered, "Key: value");
        let again = line_to_tag(&rendered).unwrap();
        assert_eq!(again.key, "Key");
        assert_eq!(again.value, "value");
    }
}

#[test]
fn bare_reply_is_delivered_after_its_blank_line() {
    // `Response: Success`, blank — no `EventList: start` in sight — is a
    // complete one-packet command reply.
    let mut b = ResponseBuilder::new();
    assert_eq!(b.add_line("Response: Success"), None);
    let out = b.add_line("");
    assert_eq!(
        out,
        Some(Response::CommandResponse(vec![vec![Tag::from("Response", "Success")]]))
    );
    // An event completed afterwards is delivered alone.
    assert_eq!(b.add_line("Event: A"), None);
    assert_eq!(
        b.add_line(""),
        Some(Response::Event(vec![Tag::from("Event", "A")]))
    );
}

#[test]
fn event_packet_goes_to_the_event_stream_not_to_a_reply() {
    let mut b = ResponseBuilder::new();
    assert_eq!(b.add_line("Event: X"), None);
    assert_eq!(b.add_line("Channel: SIP/1000"), None);
    let out = b.add_line("");
    assert_eq!(
        out,
        Some(Response::Event(vec![
            Tag::from("Event", "X"),
            Tag::from("Channel", "SIP/1000"),
        ]))
    );
}

#[test]
fn event_key_is_matched_case_insensitively() {
    let mut b = ResponseBuilder::new();
    assert_eq!(b.add_line("EVENT: Y"), None);
    assert_eq!(
        b.add_line(""),
        Some(Response::Event(vec![Tag::from("EVENT", "Y")]))
    );
}

#[test]
fn event_list_sequence_is_delivered_as_one_reply() {
    // `Response: Success` + `EventList: start`, then `Event: B`, then
    // `EventList: Complete`: one reply of all three packets in arrival
    // order, and no standalone event for the middle packet.
    let mut b = ResponseBuilder::new();
    assert_eq!(b.add_line("Response: Success"), None);
    assert_eq!(b.add_line("EventList: start"), None);
    assert_eq!(b.add_line(""), None);
    assert_eq!(b.add_line("Event: B"), None);
    assert_eq!(b.add_line(""), None);
    assert_eq!(b.add_line("EventList: Complete"), None);
    let out = b.add_line("");
    assert_eq!(
        out,
        Some(Response::CommandResponse(vec![
            vec![Tag::from("Response", "Success"), Tag::from("EventList", "start")],
            vec![Tag::from("Event", "B")],
            vec![Tag::from("EventList", "Complete")],
        ]))
    );
}

#[test]
fn event_list_markers_are_matched_case_insensitively() {
    let mut b = ResponseBuilder::new();
    assert_eq!(b.add_line("eventlist: START"), None);
    assert_eq!(b.add_line(""), None);
    assert_eq!(b.add_line("EVENTLIST: complete"), None);
    let out = b.add_line("");
    assert_eq!(
        out,
        Some(Response::CommandResponse(vec![
            vec![Tag::from("eventlist", "START")],
            vec![Tag::from("EVENTLIST", "complete")],
        ]))
    );
}

#[test]
fn empty_packet_is_never_an_event() {
    // A blank line right after another blank line completes an empty
    // packet; it falls to the reply side and is delivered as a reply of
    // one empty packet.
    let mut b = ResponseBuilder::new();
    let out = b.add_line("");
    assert_eq!(out, Some(Response::CommandResponse(vec![vec![]])));
}

#[test]
fn noise_lines_never_appear_as_tags() {
    let mut b = ResponseBuilder::new();
    assert_eq!(b.add_line("Response: Success"), None);
    assert_eq!(b.add_line("this line has no colon"), None);
    let out = b.add_line("");
    assert_eq!(
        out,
        Some(Response::CommandResponse(vec![vec![Tag::from("Response", "Success")]]))
    );
}

#[test]
fn other_event_list_values_leave_the_sequence_as_it_was() {
    let mut b = ResponseBuilder::new();
    assert_eq!(b.add_line("EventList: start"), None);
    assert_eq!(b.add_line(""), None);
    // A packet with an unrelated EventList value keeps the sequence open.
    assert_eq!(b.add_line("EventList: something"), None);
    assert_eq!(b.add_line(""), None);
    assert_eq!(b.add_line("EventList: Complete"), None);
    let out = b.add_line("");
    assert_eq!(
        out,
        Some(Response::CommandResponse(vec![
            vec![Tag::from("EventList", "start")],
            vec![Tag::from("EventList", "something")],
            vec![Tag::from("EventList", "Complete")],
        ]))
    );
}
