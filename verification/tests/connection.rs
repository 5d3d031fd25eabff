use roster::cluster::{answer, Cluster, LANCluster, LANNode, RequestLAN, ResponseLAN};
use roster::connection::{needs_slack, on_read, parse_frame, ReadOutcome};
use roster::context::Context;
use roster::dialer::{partition, RootDialer, Slot};
use roster::frame::{Error, Frame};
use roster::supervisor::MetadataConnection;
use roster::text::{is_text, push_decimal, push_signed_decimal, same_bytes, string_bytes};

#[test]
fn parse_frame_takes_one_frame_from_the_buffer() {
    let buffer: &[u8] = b"*1\r\n$4\r\nPING\r\n*1\r\n$4\r\nPI";
    let taken = parse_frame(buffer).unwrap().unwrap();
    assert_eq!(taken.frame, Frame::Array(vec![Frame::Bulk(b"PING".to_vec())]));
    assert_eq!(taken.len, 14);
    assert!(parse_frame(&buffer[taken.len..]).unwrap().is_none());
    assert!(parse_frame(b"").unwrap().is_none());
}

#[test]
fn parse_frame_refuses_what_is_no_frame() {
    assert_eq!(
        parse_frame(b"?\r\n").unwrap_err(),
        Error::Other("protocol error; invalid frame type byte `63`".to_string())
    );
    assert_eq!(
        parse_frame(b"$x\r\n").unwrap_err(),
        Error::Other("protocol error; invalid frame format".to_string())
    );
}

#[test]
fn a_read_of_nothing_ends_or_resets_the_connection() {
    assert_eq!(on_read(10, 10), ReadOutcome::Retry);
    assert_eq!(on_read(1, 100), ReadOutcome::Retry);
    assert_eq!(on_read(0, 0), ReadOutcome::EndOfStream);
    assert_eq!(on_read(0, 3), ReadOutcome::ResetByPeer);
}

#[test]
fn a_buffer_below_a_kilobyte_needs_slack() {
    assert!(needs_slack(0));
    assert!(needs_slack(1023));
    assert!(!needs_slack(1024));
    assert!(!needs_slack(4096));
}

#[test]
fn context_answers_routing_questions() {
    let root = RootDialer::new(Slot::from(0..16384), partition(2));
    let record = MetadataConnection::new(4, "a".to_string(), "b".to_string(), 9);
    let ctx = Context::new(root.part(1).unwrap(), record);
    assert!(ctx.is_in_slot(9000));
    assert!(!ctx.is_in_slot(10));
    assert_eq!(ctx.slot_nb(10), Some(0));
    assert_eq!(ctx.slot_nb(9000), Some(1));
    assert_eq!(ctx.connection().id(), 4);
    assert!(ctx.dialer().is_in_slot(9000));
}

#[test]
fn cluster_placeholders() {
    assert_eq!(Cluster::default(), Cluster {});
    assert_eq!(LANCluster::default(), LANCluster {});
    let node = LANNode::new("127.0.0.1:4000".to_string());
    assert_eq!(node.addr, "127.0.0.1:4000");
    assert_eq!(node.describe(), "127.0.0.1:4000");
    assert_eq!(answer(RequestLAN::Nothing), ResponseLAN::Nothing);
}

#[test]
fn decimal_text() {
    let mut text = String::from("n=");
    push_decimal(&mut text, 0);
    push_decimal(&mut text, 10);
    push_decimal(&mut text, u64::MAX);
    assert_eq!(text, "n=01018446744073709551615");
    let mut text = String::new();
    push_signed_decimal(&mut text, -1);
    push_signed_decimal(&mut text, 0);
    push_signed_decimal(&mut text, i64::MIN);
    push_signed_decimal(&mut text, i64::MAX);
    assert_eq!(text, "-10-92233720368547758089223372036854775807");
}

#[test]
fn text_helpers() {
    assert!(is_text(&"ping".to_string(), "ping"));
    assert!(!is_text(&"ping".to_string(), "pong"));
    assert!(!is_text(&"ping".to_string(), "pin"));
    assert!(same_bytes(&b"abc".to_vec(), &b"abc".to_vec()));
    assert!(!same_bytes(&b"abc".to_vec(), &b"abd".to_vec()));
    assert!(!same_bytes(&b"abc".to_vec(), &b"ab".to_vec()));
    assert!(same_bytes(&Vec::new(), &Vec::new()));
    assert_eq!(string_bytes(&"clé".to_string()), "clé".as_bytes());
}
