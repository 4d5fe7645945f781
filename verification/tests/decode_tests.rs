use empede::decode::{DecodeStep, ResponseDecoder};

fn lines(ls: &[&str]) -> Vec<String> {
    ls.iter().map(|l| l.to_string()).collect()
}

#[test]
fn decode_round_trips_property_order() {
    // Encoding a reply and decoding it back preserves the daemon's
    // property order exactly: no reordering, no de-duplication.
    let mut dec = ResponseDecoder::new();
    let step = dec.run(&lines(&[
        "changed: playlist",
        "changed: player",
        "changed: playlist",
        "OK",
    ]));
    assert!(matches!(step, DecodeStep::Complete));
    let result = dec.finish();
    let props = result.properties();
    let expect = vec![
        ("changed".to_string(), "playlist".to_string()),
        ("changed".to_string(), "player".to_string()),
        ("changed".to_string(), "playlist".to_string()),
    ];
    assert_eq!(props, &expect);
}

#[test]
fn decode_empty_reply() {
    let mut dec = ResponseDecoder::new();
    let step = dec.run(&lines(&["OK"]));
    assert!(matches!(step, DecodeStep::Complete));
    let result = dec.finish();
    assert!(result.properties().is_empty());
    assert!(result.binary().is_none());
}

#[test]
fn decode_failure_carries_message_verbatim() {
    let mut dec = ResponseDecoder::new();
    let step = dec.run(&lines(&["ACK [5@0] {} unknown command"]));
    match step {
        DecodeStep::Failed { message } => {
            assert_eq!(message, "ACK [5@0] {} unknown command");
        }
        _ => panic!("expected the failure terminator"),
    }
}

#[test]
fn decode_binary_announcement_requests_exact_count() {
    let mut dec = ResponseDecoder::new();
    let step = dec.run(&lines(&["size: 4096", "binary: 1024"]));
    match step {
        DecodeStep::NeedBinary { count } => assert_eq!(count, 1024),
        _ => panic!("expected a binary announcement"),
    }
    let payload: Vec<u8> = vec![7u8; 1024];
    let result = dec.finish_binary(payload.clone());
    assert_eq!(result.binary().as_ref(), Some(&payload));
    let props = result.properties();
    assert_eq!(props.len(), 2);
    assert_eq!(props[1], ("binary".to_string(), "1024".to_string()));
}

#[test]
fn decode_malformed_binary_count_is_desync() {
    let mut dec = ResponseDecoder::new();
    let step = dec.run(&lines(&["binary: lots"]));
    assert!(matches!(step, DecodeStep::Desync));
}

#[test]
fn decode_unrecognized_line_is_desync() {
    let mut dec = ResponseDecoder::new();
    let step = dec.run(&lines(&["Title: ok so far", "what is this"]));
    assert!(matches!(step, DecodeStep::Desync));
}

#[test]
fn decode_without_terminator_continues() {
    let mut dec = ResponseDecoder::new();
    let step = dec.run(&lines(&["Title: partial"]));
    assert!(matches!(step, DecodeStep::Continue));
    // The next read may then complete the response.
    let step = dec.run(&lines(&["OK"]));
    assert!(matches!(step, DecodeStep::Complete));
    let result = dec.finish();
    assert_eq!(result.properties().len(), 1);
}

#[test]
fn decode_stops_at_first_terminator() {
    let mut dec = ResponseDecoder::new();
    let step = dec.run(&lines(&["OK", "Title: after the end"]));
    assert!(matches!(step, DecodeStep::Complete));
    let result = dec.finish();
    assert!(result.properties().is_empty());
}
