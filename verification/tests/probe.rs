use midair::link::{cmd, msg, resp, FrameBuf};
use midair::probe::{
    any_response, at_verdict, dump, ping_versions, AtVerdict, Listening, RESPONSE_MAX,
};

#[test]
fn the_factory_firmware_is_recognized() {
    assert_eq!(at_verdict(b""), AtVerdict::Silent);
    assert_eq!(at_verdict(b"+AT: OK\r\n"), AtVerdict::Factory);
    assert_eq!(at_verdict(b"OOK"), AtVerdict::Factory);
    assert_eq!(at_verdict(b"O K"), AtVerdict::Unidentified);
    assert_eq!(at_verdict(b"O"), AtVerdict::Unidentified);
}

#[test]
fn the_tracker_firmware_is_recognized() {
    let mut response = vec![0x00, 0x55];
    response.extend_from_slice(FrameBuf::new().build(msg::LOG, b"hi"));
    response.extend_from_slice(FrameBuf::new().build(resp::ACK, &[cmd::PING, 3, 1]));
    response.extend_from_slice(FrameBuf::new().build(resp::ACK, &[cmd::FW_END, 3, 1]));
    response.extend_from_slice(FrameBuf::new().build(resp::ACK, &[cmd::PING, 3]));
    assert_eq!(ping_versions(&response), vec![0x0103]);
    assert_eq!(ping_versions(b"garbage"), Vec::<u16>::new());
    assert!(any_response(b"", b"x") && any_response(b"x", b"") && !any_response(b"", b""));
}

#[test]
fn a_response_keeps_its_beginning() {
    let mut l = Listening::new(100, 700);
    assert!(l.response().is_empty());
    assert_eq!((l.left_ms(100), l.left_ms(799), l.left_ms(800)), (Some(700), Some(1), None));
    l.hear(b"boot ");
    l.hear(&[b'x'; 400]);
    l.hear(b"late");
    assert_eq!(l.response().len(), RESPONSE_MAX);
    assert!(l.response().starts_with(b"boot xxx") && l.response().ends_with(b"xxx"));
}

#[test]
fn responses_are_dumped() {
    assert!(dump(b"").is_empty());
    assert_eq!(dump(b"AT\r"), vec![b"  [41, 54, 0d]  |AT.|".to_vec()]);
    let bytes: Vec<u8> = (0x6F..0x82).collect();
    let lines = dump(&bytes);
    assert_eq!(lines.len(), 2);
    assert_eq!(
        String::from_utf8(lines[0].clone()).unwrap(),
        "  [6f, 70, 71, 72, 73, 74, 75, 76, 77, 78, 79, 7a, 7b, 7c, 7d, 7e]  |opqrstuvwxyz{|}~|"
    );
    assert_eq!(lines[1], b"  [7f, 80, 81]  |...|".to_vec());
}
