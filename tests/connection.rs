use yamux::connection::{Cmd, Connection, Event, Mode};
use yamux::error::{ConnectionError, CtrlError};
use yamux::frame::{Flags, RawFrame, Type, ECODE_PROTO};
use yamux::stream::Item;
use yamux::Config;

fn flags(syn: bool, ack: bool, fin: bool, rst: bool) -> Flags {
    Flags { syn, ack, fin, rst }
}

fn data(id: u32, f: Flags, body: &[u8]) -> RawFrame {
    let mut frame = RawFrame::data(id, body.to_vec());
    frame.header.flags = f;
    frame
}

fn window_update(id: u32, f: Flags, credit: u32) -> RawFrame {
    let mut frame = RawFrame::window_update(id, credit);
    frame.header.flags = f;
    frame
}

fn assert_go_away(ev: Event) {
    match ev {
        Event::GoAway(f) => {
            assert_eq!(f.header.typ, Type::GoAway);
            assert_eq!(f.header.stream_id, 0);
            assert_eq!(f.header.aux, ECODE_PROTO);
            assert_eq!(f.header.flags, Flags::empty());
        }
        other => panic!("expected a go-away, got {:?}", other),
    }
}

fn open_pair(window: u32) -> (Connection, Connection, RawFrame) {
    let mut client = Connection::new(Config::new(window), Mode::Client);
    let server = Connection::new(Config::new(window), Mode::Server);
    let cmd = client.control().open_stream(Some(b"hi".to_vec())).unwrap();
    let Cmd::OpenStream(body) = cmd;
    let (id, frame) = client.open_stream(body).unwrap();
    assert_eq!(id, 1);
    (client, server, frame)
}

#[test]
fn client_opens_and_sends_hi() {
    let (_client, mut server, frame) = open_pair(256);
    assert_eq!(frame.header.typ, Type::Data);
    assert_eq!(frame.header.stream_id, 1);
    assert_eq!(frame.header.flags, flags(true, false, false, false));
    assert_eq!(frame.header.aux, 2);
    assert_eq!(frame.body, b"hi".to_vec());
    assert_eq!(server.on_frame(frame), Event::NewStream(1));
    assert_eq!(server.take_items(), vec![(1, Item::Data(b"hi".to_vec()))]);
    assert!(server.take_items().is_empty());
}

#[test]
fn first_reply_acknowledges() {
    let (_client, mut server, frame) = open_pair(256);
    assert_eq!(server.on_frame(frame), Event::NewStream(1));
    let first = server.on_stream_item(1, Item::Data(b"ok".to_vec())).unwrap();
    assert_eq!(first.header.typ, Type::Data);
    assert_eq!(first.header.stream_id, 1);
    assert_eq!(first.header.flags, flags(false, true, false, false));
    assert_eq!(first.body, b"ok".to_vec());
    let second = server.on_stream_item(1, Item::Data(b"ok".to_vec())).unwrap();
    assert_eq!(second.header.flags, Flags::empty());
}

#[test]
fn window_update_may_carry_the_ack() {
    let mut server = Connection::new(Config::new(256), Mode::Server);
    assert_eq!(server.on_frame(data(5, flags(true, false, false, false), b"")), Event::NewStream(5));
    let f = server.on_stream_item(5, Item::WindowUpdate(10)).unwrap();
    assert_eq!(f.header.typ, Type::WindowUpdate);
    assert_eq!(f.header.aux, 10);
    assert_eq!(f.header.flags, flags(false, true, false, false));
    let g = server.on_stream_item(5, Item::Data(b"z".to_vec())).unwrap();
    assert_eq!(g.header.flags, Flags::empty());
}

#[test]
fn finish_and_reset_items_take_no_ack() {
    let mut server = Connection::new(Config::new(256), Mode::Server);
    assert_eq!(server.on_frame(data(7, flags(true, false, false, false), b"")), Event::NewStream(7));
    let fin = server.on_stream_item(7, Item::Finish).unwrap();
    assert_eq!(fin.header.flags, flags(false, false, true, false));
    assert_eq!(fin.header.aux, 0);
    assert!(server.stream(7).unwrap().ack);
    let d = server.on_stream_item(7, Item::Data(b"a".to_vec())).unwrap();
    assert_eq!(d.header.flags, flags(false, true, false, false));
    let rst = server.on_stream_item(7, Item::Reset).unwrap();
    assert_eq!(rst.header.typ, Type::Data);
    assert_eq!(rst.header.flags, flags(false, false, false, true));
    assert!(server.stream(7).is_none());
}

#[test]
fn initial_body_over_window_is_a_protocol_error() {
    let mut server = Connection::new(Config::new(4), Mode::Server);
    assert_go_away(server.on_frame(data(3, flags(true, false, false, false), b"hello")));
    assert!(server.is_closing());
    assert!(!server.is_dead());
    assert!(server.stream(3).is_none());
    assert!(server.take_items().is_empty());
    assert_eq!(server.on_frame(data(5, flags(true, false, false, false), b"")), Event::Closed);
    server.terminate();
    assert!(server.is_dead());
}

#[test]
fn data_over_receive_window_is_a_protocol_error() {
    let mut server = Connection::new(Config::new(4), Mode::Server);
    assert_eq!(server.on_frame(data(3, flags(true, false, false, false), b"ab")), Event::NewStream(3));
    server.consume(3, 2);
    assert_eq!(server.stream(3).unwrap().recv_win, 2);
    assert_eq!(server.on_frame(data(3, Flags::empty(), b"cd")), Event::Nothing);
    assert_go_away(server.on_frame(data(3, Flags::empty(), b"efg")));
    assert!(server.is_closing());
    assert_eq!(server.stream(3).unwrap().recv_win, 2);
    let items = server.take_items();
    assert_eq!(items, vec![(3, Item::Data(b"ab".to_vec())), (3, Item::Data(b"cd".to_vec()))]);
}

#[test]
fn invalid_parity_is_a_protocol_error() {
    let mut server = Connection::new(Config::new(256), Mode::Server);
    assert_go_away(server.on_frame(data(2, flags(true, false, false, false), b"")));
    assert!(server.is_closing());
    assert!(!server.is_dead());
    let mut client = Connection::new(Config::new(256), Mode::Client);
    assert_go_away(client.on_frame(window_update(3, flags(true, false, false, false), 9)));
}

#[test]
fn duplicate_syn_is_a_protocol_error() {
    let mut server = Connection::new(Config::new(256), Mode::Server);
    assert_eq!(server.on_frame(data(1, flags(true, false, false, false), b"")), Event::NewStream(1));
    assert_go_away(server.on_frame(data(1, flags(true, false, false, false), b"x")));
    assert!(server.is_closing());
    assert!(server.stream(1).unwrap().ack);
    assert!(server.take_items().is_empty());
    assert_eq!(server.on_stream_item(1, Item::Data(b"late".to_vec())), None);
    server.terminate();
    assert!(server.is_dead());
    assert!(server.stream(1).is_none());
}

#[test]
fn fin_on_opening_frame_comes_first() {
    let mut server = Connection::new(Config::new(256), Mode::Server);
    assert_eq!(server.on_frame(data(3, flags(true, false, true, false), b"x")), Event::NewStream(3));
    assert_eq!(server.take_items(), vec![(3, Item::Finish), (3, Item::Data(b"x".to_vec()))]);
}

#[test]
fn fin_on_data_follows_the_data() {
    let mut server = Connection::new(Config::new(256), Mode::Server);
    server.on_frame(data(3, flags(true, false, false, false), b""));
    assert_eq!(server.on_frame(data(3, flags(false, false, true, false), b"y")), Event::Nothing);
    assert_eq!(server.take_items(), vec![(3, Item::Data(b"y".to_vec())), (3, Item::Finish)]);
    assert!(server.stream(3).is_some());
}

#[test]
fn ping_is_answered_on_the_session() {
    let mut server = Connection::new(Config::new(256), Mode::Server);
    match server.on_frame(RawFrame::ping(42)) {
        Event::Reply(f) => {
            assert_eq!(f.header.typ, Type::Ping);
            assert_eq!(f.header.stream_id, 0);
            assert_eq!(f.header.aux, 42);
            assert_eq!(f.header.flags, flags(false, true, false, false));
        }
        other => panic!("expected a reply, got {:?}", other),
    }
}

#[test]
fn pong_and_unknown_stream_ping_are_dropped() {
    let mut server = Connection::new(Config::new(256), Mode::Server);
    let mut pong = RawFrame::ping(7);
    pong.header.flags.ack = true;
    assert_eq!(server.on_frame(pong), Event::Nothing);
    let mut on_stream = RawFrame::ping(8);
    on_stream.header.stream_id = 9;
    assert_eq!(server.on_frame(on_stream.clone()), Event::Nothing);
    server.on_frame(data(9, flags(true, false, false, false), b""));
    assert!(matches!(server.on_frame(on_stream), Event::Reply(_)));
}

#[test]
fn id_exhaustion_terminates() {
    let mut conn = Connection::with_id_counter(Config::new(256), Mode::Server, u32::MAX - 1);
    assert_eq!(conn.open_stream(None), Err(ConnectionError::NoMoreStreamIds));
    assert!(conn.is_dead());
    assert_eq!(conn.open_stream(None), Err(ConnectionError::Closed));
}

#[test]
fn last_id_is_still_allocated() {
    let mut conn = Connection::with_id_counter(Config::new(256), Mode::Client, u32::MAX - 2);
    let (id, _) = conn.open_stream(None).unwrap();
    assert_eq!(id, u32::MAX - 2);
    assert_eq!(conn.open_stream(None), Err(ConnectionError::NoMoreStreamIds));
}

#[test]
fn local_ids_have_mode_parity_and_step_by_two() {
    let mut client = Connection::new(Config::new(256), Mode::Client);
    let mut server = Connection::new(Config::new(256), Mode::Server);
    let a = client.open_stream(None).unwrap().0;
    let b = client.open_stream(Some(vec![1, 2, 3])).unwrap().0;
    assert_eq!((a, b), (1, 3));
    let c = server.open_stream(None).unwrap().0;
    let d = server.open_stream(None).unwrap().0;
    assert_eq!((c, d), (2, 4));
    assert_eq!(client.id_counter(), 5);
    assert!(!client.stream(1).unwrap().ack);
    assert_eq!(client.stream(3).unwrap().recv_win, 256);
}

#[test]
fn open_without_body_sends_empty_syn() {
    let mut client = Connection::new(Config::new(256), Mode::Client);
    let (_, f) = client.open_stream(None).unwrap();
    assert_eq!(f.header.aux, 0);
    assert!(f.body.is_empty());
    assert_eq!(f.header.flags, flags(true, false, false, false));
}

#[test]
fn control_rejects_large_initial_body() {
    let client = Connection::new(Config::new(4), Mode::Client);
    let ctrl = client.control();
    assert_eq!(ctrl.open_stream(Some(b"hello".to_vec())), Err(CtrlError::InitialBodyTooLarge(4)));
    assert_eq!(ctrl.open_stream(Some(b"hell".to_vec())), Ok(Cmd::OpenStream(Some(b"hell".to_vec()))));
    assert_eq!(ctrl.open_stream(None), Ok(Cmd::OpenStream(None)));
}

#[test]
fn nothing_after_termination() {
    let (mut client, mut server, frame) = open_pair(256);
    server.on_frame(frame);
    assert_eq!(server.on_frame(RawFrame::go_away(0)), Event::Closed);
    assert!(server.is_dead());
    assert!(server.stream(1).is_none());
    assert_eq!(server.on_stream_item(1, Item::Data(b"late".to_vec())), None);
    assert_eq!(server.on_frame(RawFrame::ping(1)), Event::Closed);
    assert_eq!(server.open_stream(None), Err(ConnectionError::Closed));
    client.terminate();
    assert!(client.stream(1).is_none());
    assert_eq!(client.on_stream_item(1, Item::Finish), None);
}

#[test]
fn data_round_trips_in_order() {
    let (mut client, mut server, frame) = open_pair(256);
    server.on_frame(frame);
    server.take_items();
    let f1 = client.on_stream_item(1, Item::Data(b"one".to_vec())).unwrap();
    let f2 = client.on_stream_item(1, Item::Data(b"two".to_vec())).unwrap();
    assert_eq!(server.on_frame(f1), Event::Nothing);
    assert_eq!(server.on_frame(f2), Event::Nothing);
    assert_eq!(server.take_items(), vec![(1, Item::Data(b"one".to_vec())), (1, Item::Data(b"two".to_vec()))]);
}

#[test]
fn inbound_reset_delivers_and_drops() {
    let mut server = Connection::new(Config::new(256), Mode::Server);
    server.on_frame(data(3, flags(true, false, false, false), b""));
    assert_eq!(server.on_frame(data(3, flags(false, false, false, true), b"")), Event::Nothing);
    assert_eq!(server.take_items(), vec![(3, Item::Reset)]);
    assert!(server.stream(3).is_none());
    assert_eq!(server.on_frame(window_update(3, Flags::empty(), 5)), Event::Nothing);
    assert!(server.take_items().is_empty());
}

#[test]
fn closed_receiver_is_purged_silently() {
    let mut server = Connection::new(Config::new(256), Mode::Server);
    server.on_frame(data(3, flags(true, false, false, false), b""));
    server.close_receiver(3);
    assert_eq!(server.on_frame(data(3, Flags::empty(), b"q")), Event::Nothing);
    assert!(server.stream(3).is_none());
    assert!(server.take_items().is_empty());
    assert!(!server.is_dead());
}

#[test]
fn inbound_window_updates() {
    let mut client = Connection::new(Config::new(256), Mode::Client);
    assert_eq!(client.on_frame(window_update(2, flags(true, false, true, false), 99)), Event::NewStream(2));
    assert_eq!(client.stream(2).unwrap().recv_win, 99);
    assert!(client.stream(2).unwrap().ack);
    assert_eq!(client.on_frame(window_update(2, flags(false, false, true, false), 5)), Event::Nothing);
    assert_eq!(
        client.take_items(),
        vec![(2, Item::Finish), (2, Item::WindowUpdate(5)), (2, Item::Finish)]
    );
}

#[test]
fn receive_window_saturates() {
    let mut server = Connection::new(Config::new(10), Mode::Server);
    server.on_frame(data(1, flags(true, false, false, false), b""));
    server.consume(1, 25);
    assert_eq!(server.stream(1).unwrap().recv_win, 0);
    server.credit(1, 7);
    assert_eq!(server.stream(1).unwrap().recv_win, 7);
    server.credit(1, u32::MAX);
    assert_eq!(server.stream(1).unwrap().recv_win, u32::MAX);
}

#[test]
fn pending_slot_holds_one_frame() {
    let mut conn = Connection::new(Config::new(256), Mode::Client);
    assert!(!conn.has_pending());
    conn.park(RawFrame::ping(3));
    assert!(conn.has_pending());
    assert_eq!(conn.take_pending(), Some(RawFrame::ping(3)));
    assert!(!conn.has_pending());
    assert_eq!(conn.take_pending(), None);
}

#[test]
fn remote_id_validation() {
    let client = Connection::new(Config::new(256), Mode::Client);
    let server = Connection::new(Config::new(256), Mode::Server);
    assert!(client.is_valid_remote_id(2, Type::Data));
    assert!(!client.is_valid_remote_id(0, Type::Data));
    assert!(!client.is_valid_remote_id(1, Type::WindowUpdate));
    assert!(server.is_valid_remote_id(1, Type::Data));
    assert!(!server.is_valid_remote_id(2, Type::Data));
    assert!(server.is_valid_remote_id(0, Type::Ping));
    assert!(!server.is_valid_remote_id(1, Type::GoAway));
    assert_eq!(client.mode(), Mode::Client);
}

#[test]
fn default_config() {
    let c: Config = Default::default();
    assert_eq!(c.receive_window, 262144);
}

#[test]
fn duplicate_window_update_syn_keeps_the_stream() {
    let mut server = Connection::new(Config::new(256), Mode::Server);
    assert_eq!(server.on_frame(window_update(1, flags(true, false, false, false), 256)), Event::NewStream(1));
    assert_go_away(server.on_frame(window_update(1, flags(true, false, false, false), 256)));
    assert!(server.is_closing());
    assert_eq!(server.stream(1).unwrap().recv_win, 256);
    assert!(server.take_items().is_empty());
    assert_eq!(server.open_stream(None), Err(ConnectionError::Closed));
}

#[test]
fn only_the_first_data_or_window_update_acknowledges() {
    let mut server = Connection::new(Config::new(256), Mode::Server);
    assert_eq!(server.on_frame(data(3, flags(true, false, false, false), b"")), Event::NewStream(3));
    let a = server.on_stream_item(3, Item::Finish).unwrap();
    let b = server.on_stream_item(3, Item::WindowUpdate(4)).unwrap();
    let c = server.on_stream_item(3, Item::Data(b"d".to_vec())).unwrap();
    let d = server.on_stream_item(3, Item::WindowUpdate(1)).unwrap();
    assert!(!a.header.flags.ack);
    assert!(b.header.flags.ack);
    assert!(!c.header.flags.ack);
    assert!(!d.header.flags.ack);
}
