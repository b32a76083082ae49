use espnow_cam::chunker::split_frame;
use espnow_cam::protocol::{decode, Message, CHUNK_DATA_SIZE};
use espnow_cam::session::{event_of, Action, ChunkStep, Event, Session, State};

const PEER: [u8; 6] = [0x24, 0x6F, 0x28, 0x01, 0x02, 0x03];

fn streaming_session() -> Session {
    let mut s = Session::new();
    assert_eq!(s.handle_event(Event::Connect(PEER)), Action::AddPeer(PEER));
    s
}

fn send_whole_frame(s: &mut Session, frame: &[u8]) -> Vec<Vec<u8>> {
    assert!(s.begin_frame(frame.len()));
    let mut packets = Vec::new();
    loop {
        match s.next_chunk(frame) {
            ChunkStep::Send(p) => {
                packets.push(p);
                assert_eq!(s.next_chunk(frame), ChunkStep::Wait);
                s.chunk_sent();
            }
            ChunkStep::Done => break,
            other => panic!("unexpected step {:?}", other),
        }
    }
    packets
}

#[test]
fn new_session_advertises() {
    let s = Session::new();
    assert_eq!(s.state(), State::Advertising);
    assert_eq!(s.peer(), None);
    assert_eq!(s.frame_id(), 0);
    assert!(!s.is_sending());
}

#[test]
fn connect_starts_streaming_with_one_peer() {
    let s = streaming_session();
    assert_eq!(s.state(), State::Streaming);
    assert_eq!(s.peer(), Some(PEER));
    assert_eq!(s.frame_id(), 0);
}

#[test]
fn disconnect_returns_to_advertising() {
    let mut s = streaming_session();
    assert_eq!(s.handle_event(Event::Disconnect), Action::RemovePeer(PEER));
    assert_eq!(s.state(), State::Advertising);
    assert_eq!(s.peer(), None);
}

#[test]
fn second_connect_while_streaming_is_ignored() {
    let mut s = streaming_session();
    let other = [1u8, 1, 1, 1, 1, 1];
    assert_eq!(s.handle_event(Event::Connect(other)), Action::Ignore);
    assert_eq!(s.peer(), Some(PEER));
    assert_eq!(s.state(), State::Streaming);
}

#[test]
fn disconnect_while_advertising_is_ignored() {
    let mut s = Session::new();
    assert_eq!(s.handle_event(Event::Disconnect), Action::Ignore);
    assert_eq!(s.state(), State::Advertising);
}

#[test]
fn frame_id_resets_on_reconnect() {
    let mut s = streaming_session();
    send_whole_frame(&mut s, &[1, 2, 3]);
    send_whole_frame(&mut s, &[4, 5]);
    assert_eq!(s.frame_id(), 2);
    s.handle_event(Event::Disconnect);
    assert_eq!(s.handle_event(Event::Connect(PEER)), Action::AddPeer(PEER));
    assert_eq!(s.frame_id(), 0);
}

#[test]
fn packets_of_a_frame_in_order() {
    let mut s = streaming_session();
    let frame: Vec<u8> = (0..500u32).map(|i| (i * 3) as u8).collect();
    let packets = send_whole_frame(&mut s, &frame);
    assert_eq!(packets.len(), 3);
    let chunks = split_frame(&frame, CHUNK_DATA_SIZE);
    for (i, p) in packets.iter().enumerate() {
        assert_eq!(
            decode(p),
            Some(Message::FrameChunk { frame_id: 0, chunk_idx: i as u16, total_chunks: 3, data: chunks[i] })
        );
    }
    assert_eq!(packets[2].len(), 9 + 18);
    assert_eq!(s.frame_id(), 1);
    assert!(!s.is_sending());
}

#[test]
fn begin_frame_refusals() {
    let mut idle = Session::new();
    assert!(!idle.begin_frame(10));
    let mut s = streaming_session();
    assert!(!s.begin_frame(0));
    assert!(!s.begin_frame(241 * 65535 + 1));
    assert!(s.begin_frame(241 * 65535));
    assert!(!s.begin_frame(10));
}

#[test]
fn next_chunk_without_frame_is_none() {
    let mut s = streaming_session();
    assert_eq!(s.next_chunk(&[1, 2, 3]), ChunkStep::Idle);
    s.chunk_sent();
    assert_eq!(s.next_chunk(&[1, 2, 3]), ChunkStep::Idle);
    assert_eq!(s.frame_id(), 0);
}

#[test]
fn frame_id_wraps_after_65536_frames() {
    let mut s = streaming_session();
    let frame = [7u8];
    for expected in 0..65536u32 {
        assert_eq!(s.frame_id() as u32, expected);
        let packets = send_whole_frame(&mut s, &frame);
        assert_eq!(packets.len(), 1);
        assert_eq!(packets[0][3] as u32 + packets[0][4] as u32 * 256, expected);
    }
    assert_eq!(s.frame_id(), 0);
}

#[test]
fn disconnect_mid_frame_stops_the_frame() {
    let mut s = streaming_session();
    let frame = vec![0xEEu8; 500];
    assert!(s.begin_frame(frame.len()));
    assert!(matches!(s.next_chunk(&frame), ChunkStep::Send(_)));
    s.chunk_sent();
    assert_eq!(s.handle_event(Event::Disconnect), Action::RemovePeer(PEER));
    assert_eq!(s.next_chunk(&frame), ChunkStep::Idle);
    assert_eq!(s.next_chunk(&frame), ChunkStep::Idle);
    assert!(!s.is_sending());
    assert_eq!(s.state(), State::Advertising);
}

#[test]
fn inbound_datagrams_to_events() {
    assert_eq!(event_of(PEER, &[0xCA, 0x3E, 0x02]), Some(Event::Connect(PEER)));
    assert_eq!(event_of(PEER, &[0xCA, 0x3E, 0x04]), Some(Event::Disconnect));
    assert_eq!(event_of(PEER, &[0xCA, 0x3E, 0x01]), None);
    assert_eq!(event_of(PEER, &[0xCA, 0x3E, 0x05]), None);
    assert_eq!(event_of(PEER, &[0xCA, 0x3E, 0x03, 0, 0, 0, 0, 1, 0, 9]), None);
}

#[test]
fn one_chunk_in_flight_at_a_time() {
    let mut s = streaming_session();
    let frame = vec![1u8; 300];
    assert!(s.begin_frame(frame.len()));
    let first = s.next_chunk(&frame);
    assert!(matches!(first, ChunkStep::Send(ref p) if p.len() == 9 + 241));
    assert_eq!(s.next_chunk(&frame), ChunkStep::Wait);
    assert_eq!(s.next_chunk(&frame), ChunkStep::Wait);
    s.chunk_sent();
    let second = s.next_chunk(&frame);
    assert!(matches!(second, ChunkStep::Send(ref p) if p.len() == 9 + 59 && p[5] == 1 && p[7] == 2));
    assert_eq!(s.next_chunk(&frame), ChunkStep::Wait);
    assert_eq!(s.frame_id(), 0);
    s.chunk_sent();
    assert_eq!(s.next_chunk(&frame), ChunkStep::Done);
    assert_eq!(s.frame_id(), 1);
    assert_eq!(s.next_chunk(&frame), ChunkStep::Idle);
}
