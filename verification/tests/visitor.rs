use futures::channel::mpsc::unbounded;
use wormhole::active_stream::ActiveStreams;
use wormhole::connected_clients::{ClientId, ConnectedClient, Connections};
use wormhole::control_server::{
    process_client_messages, send_client_stream_init, tunnel_client, tunnel_client_written,
    ReaderStep,
};
use wormhole::packet::{ControlPacket, StreamId, StreamMessage};
use wormhole::remote::{
    accept_connection, forward_visitor_chunk, fresh_stream_id, open_stream, packet_for_chunk,
    visitor_packet_outcome, write_for_message, AcceptError, VisitorStep, VisitorWrite,
    HTTP_NOT_FOUND_RESPONSE, HTTP_TUNNEL_REFUSED_RESPONSE, ID_ATTEMPTS,
};

fn id(s: &str) -> ClientId {
    ClientId(s.to_string())
}

#[test]
fn canned_responses() {
    assert_eq!(
        HTTP_NOT_FOUND_RESPONSE,
        "HTTP/1.1 404\r\nContent-Length: 23\r\n\r\nError: Tunnel Not Found"
    );
    assert_eq!(
        HTTP_TUNNEL_REFUSED_RESPONSE,
        "HTTP/1.1 502\r\nContent-Length: 32\r\n\r\nTunnel says: connection refused."
    );
    assert_eq!("Error: Tunnel Not Found".len(), 23);
    assert_eq!("Tunnel says: connection refused.".len(), 32);
    assert_eq!(ID_ATTEMPTS, 4);
}

#[test]
fn packets_for_reads() {
    assert_eq!(packet_for_chunk(StreamId(3), None), Some(ControlPacket::End(StreamId(3))));
    assert_eq!(packet_for_chunk(StreamId(3), Some(Vec::new())), None);
    assert_eq!(
        packet_for_chunk(StreamId(3), Some(vec![1, 2])),
        Some(ControlPacket::Data(StreamId(3), vec![1, 2]))
    );
}

#[test]
fn writes_for_messages() {
    assert_eq!(
        write_for_message(StreamMessage::Data(vec![1, 2, 3])),
        VisitorWrite { bytes: vec![1, 2, 3], close: false }
    );
    assert_eq!(
        write_for_message(StreamMessage::Data(Vec::new())),
        VisitorWrite { bytes: Vec::new(), close: false }
    );
    assert_eq!(
        write_for_message(StreamMessage::TunnelRefused),
        VisitorWrite {
            bytes: b"HTTP/1.1 502\r\nContent-Length: 32\r\n\r\nTunnel says: connection refused."
                .to_vec(),
            close: true
        }
    );
}

#[test]
fn unknown_host_is_not_found() {
    let c = Connections::new();
    let mut streams = ActiveStreams::new();
    let (stx, _srx) = unbounded::<StreamMessage>();
    let r = accept_connection(&"demo".to_string(), &c, &mut streams, stx);
    assert!(matches!(r, Err(AcceptError::NotFound)));
    assert_eq!(streams.len(), 0);
}

#[test]
fn fresh_ids_are_free() {
    let mut streams = ActiveStreams::new();
    let (tx, _rx) = unbounded::<ControlPacket>();
    let a = ConnectedClient { id: id("A"), host: "demo".to_string(), tx };
    for _ in 0..20 {
        let n = fresh_stream_id(&streams).unwrap();
        assert!(!streams.contains(&n));
        let (stx, _srx) = unbounded::<StreamMessage>();
        assert!(open_stream(&mut streams, &a, n, stx).is_some());
    }
    assert_eq!(streams.len(), 20);
}

#[test]
fn open_stream_never_takes_an_id_in_flight() {
    let mut streams = ActiveStreams::new();
    let (tx, _rx) = unbounded::<ControlPacket>();
    let a = ConnectedClient { id: id("A"), host: "demo".to_string(), tx: tx.clone() };
    let b = ConnectedClient { id: id("B"), host: "beta".to_string(), tx };
    let (stx, _srx) = unbounded::<StreamMessage>();
    let s = open_stream(&mut streams, &a, StreamId(1), stx).unwrap();
    assert_eq!(s.id, StreamId(1));
    assert_eq!(s.client.id, id("A"));
    let (stx2, _srx2) = unbounded::<StreamMessage>();
    assert!(open_stream(&mut streams, &b, StreamId(1), stx2).is_none());
    assert_eq!(streams.len(), 1);
    assert_eq!(streams.get(&StreamId(1)).map(|x| x.client.id.clone()), Some(id("A")));
}

#[test]
fn happy_path() {
    let mut c = Connections::new();
    let mut streams = ActiveStreams::new();
    let (tx, mut rx) = unbounded::<ControlPacket>();
    let a = ConnectedClient { id: id("A"), host: "demo".to_string(), tx };
    c.add(a.clone());

    // A visitor arrives for `demo`.
    let (stx, mut srx) = unbounded::<StreamMessage>();
    let stream = accept_connection(&"demo".to_string(), &c, &mut streams, stx).unwrap();
    let s = stream.id;
    assert_eq!(stream.client.id, id("A"));
    assert_eq!(stream.client.host, "demo");
    assert!(streams.contains(&s));
    assert_eq!(streams.len(), 1);
    assert!(send_client_stream_init(&stream, &mut c));

    // The visitor sends its request.
    let request = b"GET / HTTP/1.1\r\n\r\n".to_vec();
    assert_eq!(
        forward_visitor_chunk(&stream, Some(request.clone()), &mut c, &mut streams),
        VisitorStep::Continue
    );
    assert_eq!(rx.try_recv().ok(), Some(ControlPacket::Init(s)));
    assert_eq!(rx.try_recv().ok(), Some(ControlPacket::Data(s, request)));
    assert!(rx.try_recv().is_err());

    // The client answers.
    let answer = b"HTTP/1.1 200 OK\r\n\r\nhi".to_vec();
    let frame = ControlPacket::Data(s, answer.clone()).serialize();
    assert_eq!(process_client_messages(&a, Some(&frame), &mut c, &streams), ReaderStep::Continue);
    let message = srx.try_recv().unwrap();
    assert_eq!(write_for_message(message), VisitorWrite { bytes: answer, close: false });

    // The visitor closes.
    assert_eq!(forward_visitor_chunk(&stream, None, &mut c, &mut streams), VisitorStep::Finished);
    assert_eq!(rx.try_recv().ok(), Some(ControlPacket::End(s)));
    assert!(!streams.contains(&s));
    assert_eq!(c.len(), 1);
}

#[test]
fn visitor_bytes_arrive_in_order() {
    let mut c = Connections::new();
    let mut streams = ActiveStreams::new();
    let (tx, mut rx) = unbounded::<ControlPacket>();
    let a = ConnectedClient { id: id("A"), host: "demo".to_string(), tx };
    c.add(a.clone());
    let (stx, _srx) = unbounded::<StreamMessage>();
    let one = open_stream(&mut streams, &a, StreamId(1), stx).unwrap();
    let (stx2, _srx2) = unbounded::<StreamMessage>();
    let two = open_stream(&mut streams, &a, StreamId(2), stx2).unwrap();

    let chunks: Vec<Vec<u8>> = vec![b"GET ".to_vec(), Vec::new(), b"/ HT".to_vec(), b"TP".to_vec()];
    for (i, chunk) in chunks.iter().enumerate() {
        assert_eq!(
            forward_visitor_chunk(&one, Some(chunk.clone()), &mut c, &mut streams),
            VisitorStep::Continue
        );
        assert_eq!(
            forward_visitor_chunk(&two, Some(vec![i as u8 + 1]), &mut c, &mut streams),
            VisitorStep::Continue
        );
    }
    let mut first: Vec<u8> = Vec::new();
    let mut second: Vec<u8> = Vec::new();
    let mut count = 0;
    while let Ok(packet) = rx.try_recv() {
        count += 1;
        match packet {
            ControlPacket::Data(StreamId(1), bytes) => first.extend(bytes),
            ControlPacket::Data(StreamId(2), bytes) => second.extend(bytes),
            other => panic!("{:?}", other),
        }
    }
    assert_eq!(count, 7);
    assert_eq!(first, b"GET / HTTP".to_vec());
    assert_eq!(second, vec![1, 2, 3, 4]);
}

#[test]
fn refused_tunnel() {
    let mut c = Connections::new();
    let mut streams = ActiveStreams::new();
    let (tx, mut rx) = unbounded::<ControlPacket>();
    let a = ConnectedClient { id: id("A"), host: "demo".to_string(), tx };
    c.add(a.clone());
    let (stx, mut srx) = unbounded::<StreamMessage>();
    let stream = accept_connection(&"demo".to_string(), &c, &mut streams, stx).unwrap();
    assert!(send_client_stream_init(&stream, &mut c));
    assert_eq!(rx.try_recv().ok(), Some(ControlPacket::Init(stream.id)));

    let frame = ControlPacket::Refused(stream.id).serialize();
    assert_eq!(process_client_messages(&a, Some(&frame), &mut c, &streams), ReaderStep::Continue);
    let write = write_for_message(srx.try_recv().unwrap());
    assert!(write.close);
    assert!(write.bytes.starts_with(b"HTTP/1.1 502"));
    assert_eq!(write.bytes, HTTP_TUNNEL_REFUSED_RESPONSE.as_bytes().to_vec());

    // The writer is done: the stream leaves the index.
    assert!(streams.remove(&stream.id).is_some());
    assert!(!streams.contains(&stream.id));
    assert_eq!(c.len(), 1);
}

#[test]
fn client_disappearance() {
    let mut c = Connections::new();
    let mut streams = ActiveStreams::new();
    let (tx, rx) = unbounded::<ControlPacket>();
    let a = ConnectedClient { id: id("A"), host: "demo".to_string(), tx };
    c.add(a.clone());
    let (stx, _srx) = unbounded::<StreamMessage>();
    let stream = accept_connection(&"demo".to_string(), &c, &mut streams, stx).unwrap();
    assert!(send_client_stream_init(&stream, &mut c));

    // The link drops: the reader sees the end, the tunnel task a failed write.
    assert_eq!(process_client_messages(&a, None, &mut c, &streams), ReaderStep::Stop);
    assert!(!tunnel_client_written(&a, false, &mut c));
    drop(rx);
    assert_eq!(tunnel_client(None), None);

    // The pump of the stream finds the queue closed.
    assert_eq!(
        forward_visitor_chunk(&stream, Some(vec![1]), &mut c, &mut streams),
        VisitorStep::ClientGone
    );
    assert_eq!(c.len(), 0);
    assert_eq!(c.client_for_host(&"demo".to_string()), None);
    assert!(c.get(&id("A")).is_none());
    assert_eq!(streams.len(), 0);
}

#[test]
fn end_to_a_gone_client() {
    let mut c = Connections::new();
    let mut streams = ActiveStreams::new();
    let (tx, rx) = unbounded::<ControlPacket>();
    let a = ConnectedClient { id: id("A"), host: "demo".to_string(), tx };
    c.add(a.clone());
    let (stx, _srx) = unbounded::<StreamMessage>();
    let stream = open_stream(&mut streams, &a, StreamId(4), stx).unwrap();
    drop(rx);
    assert_eq!(forward_visitor_chunk(&stream, None, &mut c, &mut streams), VisitorStep::ClientGone);
    assert_eq!(c.len(), 0);
    assert_eq!(streams.len(), 0);
}

#[test]
fn empty_read_changes_nothing() {
    let mut c = Connections::new();
    let mut streams = ActiveStreams::new();
    let (tx, rx) = unbounded::<ControlPacket>();
    let a = ConnectedClient { id: id("A"), host: "demo".to_string(), tx };
    c.add(a.clone());
    let (stx, _srx) = unbounded::<StreamMessage>();
    let stream = open_stream(&mut streams, &a, StreamId(4), stx).unwrap();
    drop(rx);
    assert_eq!(
        forward_visitor_chunk(&stream, Some(Vec::new()), &mut c, &mut streams),
        VisitorStep::Continue
    );
    assert_eq!(c.len(), 1);
    assert_eq!(streams.len(), 1);
}

#[test]
fn packet_outcomes() {
    let mut c = Connections::new();
    let mut streams = ActiveStreams::new();
    let (tx, _rx) = unbounded::<ControlPacket>();
    let a = ConnectedClient { id: id("A"), host: "demo".to_string(), tx };
    c.add(a.clone());
    let (stx, _srx) = unbounded::<StreamMessage>();
    let stream = open_stream(&mut streams, &a, StreamId(4), stx).unwrap();
    assert_eq!(
        visitor_packet_outcome(&stream, false, true, &mut c, &mut streams),
        VisitorStep::Continue
    );
    assert_eq!((c.len(), streams.len()), (1, 1));
    assert_eq!(
        visitor_packet_outcome(&stream, true, true, &mut c, &mut streams),
        VisitorStep::Finished
    );
    assert_eq!((c.len(), streams.len()), (1, 0));
    assert_eq!(
        visitor_packet_outcome(&stream, true, false, &mut c, &mut streams),
        VisitorStep::ClientGone
    );
    assert_eq!((c.len(), streams.len()), (0, 0));
}

#[test]
fn host_names_its_sub_domain() {
    let allowed = vec!["baz.com".to_string(), "foo.bar".to_string()];
    assert_eq!(steps_sub_domain("demo.baz.com", &allowed), Some("demo".to_string()));
    assert_eq!(steps_sub_domain("demo.foo.bar", &allowed), Some("demo".to_string()));
    assert_eq!(steps_sub_domain(".baz.com", &allowed), Some(String::new()));
    assert_eq!(steps_sub_domain("baz.com", &allowed), None);
    assert_eq!(steps_sub_domain("a.b.baz.com", &allowed), None);
    assert_eq!(steps_sub_domain("demo.baz.org", &allowed), None);
    assert_eq!(steps_sub_domain("demo", &allowed), None);
    assert_eq!(steps_sub_domain("", &allowed), None);
    assert_eq!(steps_sub_domain("demo.baz.com", &Vec::new()), None);
    assert_eq!(steps_sub_domain("demo.", &vec![String::new()]), Some("demo".to_string()));
}

fn steps_sub_domain(host: &str, allowed: &Vec<String>) -> Option<String> {
    wormhole::remote::sub_domain_for_host(host, allowed)
}
