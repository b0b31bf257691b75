use futures::channel::mpsc::unbounded;
use wormhole::active_stream::{ActiveStream, ActiveStreams};
use wormhole::connected_clients::{ClientId, ConnectedClient, Connections};
use wormhole::control_server::{
    classify_frame, client_offer_outcome, forward_to_stream, process_client_messages,
    send_client_stream_init, stream_init_packet, tunnel_client, tunnel_client_written, Dispatch,
    ReaderStep, PING_INTERVAL,
};
use wormhole::packet::{ControlPacket, DecodeError, StreamId, StreamMessage};

fn id(s: &str) -> ClientId {
    ClientId(s.to_string())
}

#[test]
fn ping_interval_is_half_a_minute() {
    assert_eq!(PING_INTERVAL, 30);
}

#[test]
fn classify_end_of_link() {
    assert_eq!(classify_frame(None), Dispatch::Goodbye);
    assert_eq!(classify_frame(Some(&[])), Dispatch::Goodbye);
}

#[test]
fn classify_packets() {
    let data = ControlPacket::Data(StreamId(9), b"hi".to_vec()).serialize();
    assert_eq!(
        classify_frame(Some(&data)),
        Dispatch::Forward(StreamId(9), StreamMessage::Data(b"hi".to_vec()))
    );
    let refused = ControlPacket::Refused(StreamId(9)).serialize();
    assert_eq!(
        classify_frame(Some(&refused)),
        Dispatch::Forward(StreamId(9), StreamMessage::TunnelRefused)
    );
    let ping = ControlPacket::Ping.serialize();
    assert_eq!(classify_frame(Some(&ping)), Dispatch::Pong);
    let init = ControlPacket::Init(StreamId(9)).serialize();
    assert_eq!(classify_frame(Some(&init)), Dispatch::Unexpected);
    let end = ControlPacket::End(StreamId(9)).serialize();
    assert_eq!(classify_frame(Some(&end)), Dispatch::Unexpected);
    assert_eq!(
        classify_frame(Some(&[1, 2, 3])),
        Dispatch::Malformed(DecodeError::MissingStreamId)
    );
    assert_eq!(
        classify_frame(Some(&[9, 0, 0, 0, 0, 0, 0, 0, 0])),
        Dispatch::Malformed(DecodeError::InvalidControlByte)
    );
}

#[test]
fn tunnel_writes_the_frame_of_each_packet() {
    assert_eq!(tunnel_client(None), None);
    assert_eq!(
        tunnel_client(Some(ControlPacket::Init(StreamId(2)))),
        Some(vec![0x01, 2, 0, 0, 0, 0, 0, 0, 0])
    );
    assert_eq!(
        tunnel_client(Some(ControlPacket::Data(StreamId(2), vec![7, 8]))),
        Some(vec![0x02, 2, 0, 0, 0, 0, 0, 0, 0, 7, 8])
    );
}

#[test]
fn failed_write_removes_the_client() {
    let mut c = Connections::new();
    let (tx, _rx) = unbounded::<ControlPacket>();
    let a = ConnectedClient { id: id("A"), host: "demo".to_string(), tx };
    c.add(a.clone());
    assert!(tunnel_client_written(&a, true, &mut c));
    assert_eq!(c.len(), 1);
    assert!(!tunnel_client_written(&a, false, &mut c));
    assert_eq!(c.len(), 0);
    assert_eq!(c.client_for_host(&"demo".to_string()), None);
}

#[test]
fn offer_outcome_follows_the_queue() {
    let mut c = Connections::new();
    let (tx, _rx) = unbounded::<ControlPacket>();
    let a = ConnectedClient { id: id("A"), host: "demo".to_string(), tx };
    c.add(a.clone());
    assert!(client_offer_outcome(&mut c, &a, true));
    assert_eq!(c.client_for_host(&"demo".to_string()), Some(id("A")));
    assert!(!client_offer_outcome(&mut c, &a, false));
    assert_eq!(c.client_for_host(&"demo".to_string()), None);
}

#[test]
fn stream_init_reaches_the_client() {
    let mut c = Connections::new();
    let (tx, mut rx) = unbounded::<ControlPacket>();
    let a = ConnectedClient { id: id("A"), host: "demo".to_string(), tx };
    c.add(a.clone());
    let (stx, _srx) = unbounded::<StreamMessage>();
    let s = ActiveStream { id: StreamId(5), client: a, tx: stx };
    assert_eq!(stream_init_packet(&s), ControlPacket::Init(StreamId(5)));
    assert!(send_client_stream_init(&s, &mut c));
    assert_eq!(rx.try_recv().ok(), Some(ControlPacket::Init(StreamId(5))));
    assert!(rx.try_recv().is_err());
    assert_eq!(c.len(), 1);
}

#[test]
fn stream_init_to_a_gone_client_removes_it() {
    let mut c = Connections::new();
    let (tx, rx) = unbounded::<ControlPacket>();
    let a = ConnectedClient { id: id("A"), host: "demo".to_string(), tx };
    c.add(a.clone());
    drop(rx);
    let (stx, _srx) = unbounded::<StreamMessage>();
    let s = ActiveStream { id: StreamId(5), client: a, tx: stx };
    assert!(!send_client_stream_init(&s, &mut c));
    assert_eq!(c.len(), 0);
    assert_eq!(c.client_for_host(&"demo".to_string()), None);
}

#[test]
fn forward_reaches_the_visitor_queue() {
    let mut streams = ActiveStreams::new();
    let (tx, _rx) = unbounded::<ControlPacket>();
    let a = ConnectedClient { id: id("A"), host: "demo".to_string(), tx };
    let (stx, mut srx) = unbounded::<StreamMessage>();
    streams.insert(ActiveStream { id: StreamId(5), client: a, tx: stx });
    assert!(forward_to_stream(&streams, &StreamId(5), StreamMessage::Data(vec![1])));
    assert!(forward_to_stream(&streams, &StreamId(5), StreamMessage::TunnelRefused));
    assert!(!forward_to_stream(&streams, &StreamId(6), StreamMessage::Data(vec![2])));
    assert_eq!(srx.try_recv().ok(), Some(StreamMessage::Data(vec![1])));
    assert_eq!(srx.try_recv().ok(), Some(StreamMessage::TunnelRefused));
    assert!(srx.try_recv().is_err());
    drop(srx);
    assert!(!forward_to_stream(&streams, &StreamId(5), StreamMessage::Data(vec![3])));
    assert!(streams.contains(&StreamId(5)));
}

#[test]
fn reader_routes_data_and_refusals() {
    let mut c = Connections::new();
    let mut streams = ActiveStreams::new();
    let (tx, _rx) = unbounded::<ControlPacket>();
    let a = ConnectedClient { id: id("A"), host: "demo".to_string(), tx };
    c.add(a.clone());
    let (stx, mut srx) = unbounded::<StreamMessage>();
    streams.insert(ActiveStream { id: StreamId(5), client: a.clone(), tx: stx });

    let reply = ControlPacket::Data(StreamId(5), b"HTTP/1.1 200 OK\r\n\r\nhi".to_vec()).serialize();
    assert_eq!(process_client_messages(&a, Some(&reply), &mut c, &streams), ReaderStep::Continue);
    assert_eq!(
        srx.try_recv().ok(),
        Some(StreamMessage::Data(b"HTTP/1.1 200 OK\r\n\r\nhi".to_vec()))
    );

    let refused = ControlPacket::Refused(StreamId(5)).serialize();
    assert_eq!(process_client_messages(&a, Some(&refused), &mut c, &streams), ReaderStep::Continue);
    assert_eq!(srx.try_recv().ok(), Some(StreamMessage::TunnelRefused));

    let stray = ControlPacket::Data(StreamId(77), vec![1]).serialize();
    assert_eq!(process_client_messages(&a, Some(&stray), &mut c, &streams), ReaderStep::Continue);
    assert!(srx.try_recv().is_err());
    assert_eq!(c.len(), 1);
}

#[test]
fn reader_skips_what_a_client_may_not_send() {
    let mut c = Connections::new();
    let streams = ActiveStreams::new();
    let (tx, mut rx) = unbounded::<ControlPacket>();
    let a = ConnectedClient { id: id("A"), host: "demo".to_string(), tx };
    c.add(a.clone());
    let init = ControlPacket::Init(StreamId(5)).serialize();
    let end = ControlPacket::End(StreamId(5)).serialize();
    assert_eq!(process_client_messages(&a, Some(&init), &mut c, &streams), ReaderStep::Continue);
    assert_eq!(process_client_messages(&a, Some(&end), &mut c, &streams), ReaderStep::Continue);
    assert_eq!(process_client_messages(&a, Some(&[0xff]), &mut c, &streams), ReaderStep::Continue);
    assert_eq!(c.len(), 1);
    assert!(rx.try_recv().is_err());
}

#[test]
fn ping() {
    let mut c = Connections::new();
    let mut streams = ActiveStreams::new();
    let (tx, mut rx) = unbounded::<ControlPacket>();
    let a = ConnectedClient { id: id("A"), host: "demo".to_string(), tx };
    c.add(a.clone());
    let (stx, mut srx) = unbounded::<StreamMessage>();
    streams.insert(ActiveStream { id: StreamId(5), client: a.clone(), tx: stx });

    let frame = ControlPacket::Ping.serialize();
    let step = process_client_messages(&a, Some(&frame), &mut c, &streams);
    assert_eq!(step, ReaderStep::Reply { after_secs: 30, packet: ControlPacket::Ping });
    // Nothing is queued before the interval is over.
    assert!(rx.try_recv().is_err());

    // Traffic during the wait goes on.
    let reply = ControlPacket::Data(StreamId(5), vec![1, 2, 3]).serialize();
    assert_eq!(process_client_messages(&a, Some(&reply), &mut c, &streams), ReaderStep::Continue);
    assert_eq!(srx.try_recv().ok(), Some(StreamMessage::Data(vec![1, 2, 3])));
    assert_eq!(c.len(), 1);
    assert_eq!(streams.len(), 1);
}

#[test]
fn end_of_link_removes_the_client() {
    for frame in [None, Some(&[][..])] {
        let mut c = Connections::new();
        let streams = ActiveStreams::new();
        let (tx, _rx) = unbounded::<ControlPacket>();
        let a = ConnectedClient { id: id("A"), host: "demo".to_string(), tx };
        c.add(a.clone());
        assert_eq!(process_client_messages(&a, frame, &mut c, &streams), ReaderStep::Stop);
        assert_eq!(c.len(), 0);
        assert_eq!(c.client_for_host(&"demo".to_string()), None);
    }
}
