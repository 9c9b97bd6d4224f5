use std::collections::VecDeque;

use midair::io::{IoError, LoraIo, BUF_SIZE};
use midair::lora::{Frame, FRAME_MAX, PAYLOAD_MAX};
use midair::node::{Node, NodeState, TxError, SEEN_SLOTS, SEEN_TTL_MS};
use midair::platform::Random;
use midair::radio::PacketRadio;
use midair::radiocfg::{RadioConfig, Role};

/// A radio that hears what the test puts in and keeps what is sent.
#[derive(Default)]
struct Air {
    heard: VecDeque<(Vec<u8>, i16)>,
    sent: Vec<Vec<u8>>,
    rooms: Vec<usize>,
    broken: bool,
}

impl PacketRadio for Air {
    type Error = &'static str;

    fn poll_recv(&mut self, buf: &mut [u8]) -> Result<Option<(usize, i16)>, Self::Error> {
        self.rooms.push(buf.len());
        if self.broken {
            return Err("broken");
        }
        match self.heard.pop_front() {
            // What does not fit is dropped.
            Some((packet, _)) if packet.len() > buf.len() => Ok(None),
            Some((packet, rssi)) => {
                buf[..packet.len()].copy_from_slice(&packet);
                Ok(Some((packet.len(), rssi)))
            }
            None => Ok(None),
        }
    }

    fn send(&mut self, data: &[u8]) -> Result<(), Self::Error> {
        self.sent.push(data.to_vec());
        if self.broken {
            return Err("broken");
        }
        Ok(())
    }

    fn max_packet_len(&self) -> usize {
        255
    }
}

fn packet(src: u8, id: u8, hops_left: u8, payload: &[u8]) -> Vec<u8> {
    let mut out = [0u8; 64];
    let n = Frame { src, id, hops_left, payload }.encode(&mut out).unwrap();
    out[..n].to_vec()
}

fn config(address: u8, role: Role) -> RadioConfig {
    RadioConfig { address, role, ..RadioConfig::default() }
}

#[test]
fn broadcasts_are_numbered() {
    let cfg = RadioConfig { max_hops: 1, ..config(5, Role::Leaf) };
    let mut node = Node::new(Air::default(), &cfg);
    assert_eq!(node.address(), 5);
    assert!(node.broadcast(b"hi").is_ok());
    assert!(node.broadcast(b"ho").is_ok());
    assert_eq!(node.radio().sent, vec![vec![5, 0, 1, b'h', b'i'], vec![5, 1, 1, b'h', b'o']]);
    assert!(matches!(node.broadcast(&[0; PAYLOAD_MAX + 1]), Err(TxError::Payload)));
    assert_eq!(node.radio().sent.len(), 2);
    node.radio_mut().broken = true;
    assert!(matches!(node.broadcast(b"x"), Err(TxError::Radio("broken"))));
}

#[test]
fn ids_count_up_and_wrap() {
    let cfg = RadioConfig { max_hops: 3, ..config(9, Role::TxOnly) };
    let mut node = Node::new(Air::default(), &cfg);
    for k in 0..600usize {
        // Neither a radio that fails nor a payload that does not fit matters.
        node.radio_mut().broken = k % 3 == 0;
        assert!(matches!(node.broadcast(&[]), Err(TxError::Payload)));
        assert_eq!(node.broadcast(&[7]).is_ok(), k % 3 != 0);
        assert_eq!(node.radio().sent[k], [9, (k % 256) as u8, 3, 7]);
    }
}

#[test]
fn the_longest_frame_is_delivered() {
    let mut node = Node::new(Air::default(), &config(5, Role::Leaf));
    let mut rng = Random::new();
    let longest = packet(1, 2, 0, &[6; PAYLOAD_MAX]);
    let too_long = [&longest[..], &[0]].concat();
    node.radio_mut().heard.push_back((longest.clone(), -40));
    node.radio_mut().heard.push_back((too_long, -40));
    let f = node.poll(0, 0, &mut rng, 1).unwrap();
    assert_eq!((f.src, f.rssi, f.payload), (1, -40, &[6; PAYLOAD_MAX][..]));
    assert!(node.poll(0, 0, &mut rng, 1).is_none());
    assert_eq!(node.radio().rooms, [FRAME_MAX, FRAME_MAX]);
    assert_eq!(longest.len(), FRAME_MAX);
}

#[test]
fn only_a_repeater_repeats() {
    let mut rng = Random::new();
    for (role, hops) in [(Role::Leaf, 3), (Role::RxOnly, 3), (Role::Repeater, 0)] {
        let mut node = Node::new(Air::default(), &config(5, role));
        node.radio_mut().heard.push_back((packet(1, 2, hops, b"x"), -40));
        assert!(node.poll(0, 0, &mut rng, 1).is_some());
        assert!(!node.repeat_due(1_000_000));
        assert!(!node.send_due_repeat(1_000_000));
    }
    let cfg = config(5, Role::Repeater);
    let mut node = Node::new(Air::default(), &cfg);
    node.radio_mut().heard.push_back((packet(1, 2, 3, b"x"), -40));
    assert!(node.poll(u32::MAX, 0, &mut rng, 1).is_some());
    let due = u32::MAX.wrapping_add(cfg.repeat_jitter_ms());
    assert!(node.radio().sent.is_empty());
    assert!(node.repeat_due(due));
    assert!(node.send_due_repeat(due));
    assert_eq!(node.radio().sent, [packet(1, 2, 2, b"x")]);
    assert!(!node.repeat_due(due));
}

#[test]
fn a_receive_only_node_is_muted() {
    let mut node = Node::new(Air::default(), &config(5, Role::RxOnly));
    assert!(matches!(node.broadcast(b"hi"), Err(TxError::Muted)));
    assert!(node.radio().sent.is_empty());
}

#[test]
fn a_payload_is_delivered_once() {
    let mut node = Node::new(Air::default(), &config(5, Role::Leaf));
    let mut rng = Random::new();
    for _ in 0..2 {
        node.radio_mut().heard.push_back((packet(9, 3, 1, b"pos"), -80));
    }
    {
        let got = node.poll(100, 101, &mut rng, 7).expect("news");
        assert_eq!((got.src, got.rssi, got.payload), (9, -80, &b"pos"[..]));
    }
    assert_eq!(node.last_rx_ms(), Some(101));
    // A copy within the memory of the node is no news, and counts as the
    // last one seen; one later than that is.
    assert!(node.poll(200, 200, &mut rng, 7).is_none());
    for _ in 0..2 {
        node.radio_mut().heard.push_back((packet(9, 3, 1, b"pos"), -80));
    }
    assert!(node.poll(100 + SEEN_TTL_MS, 0, &mut rng, 7).is_none());
    assert!(node.poll(100 + 2 * SEEN_TTL_MS, 0, &mut rng, 7).is_some());
    assert!(!node.repeat_due(u32::MAX / 2));
}

#[test]
fn own_and_malformed_packets_are_not_delivered() {
    let mut node = Node::new(Air::default(), &config(5, Role::Leaf));
    let mut rng = Random::new();
    node.radio_mut().heard.push_back((packet(5, 3, 1, b"me"), -20));
    assert!(node.poll(1, 1, &mut rng, 1).is_none());
    node.radio_mut().heard.push_back((vec![9, 1], -20));
    assert!(node.poll(2, 2, &mut rng, 1).is_none());
    assert!(node.poll(3, 3, &mut rng, 1).is_none());
}

#[test]
fn the_last_reception_is_known() {
    let cfg = config(5, Role::Leaf);
    let mut node = Node::new(Air::default(), &cfg);
    let mut rng = Random::new();
    assert!(node.poll(1, 1, &mut rng, 1).is_none());
    node.radio_mut().broken = true;
    assert!(node.poll(2, 2, &mut rng, 1).is_none());
    node.radio_mut().broken = false;
    assert_eq!((node.last_rx_ms(), node.last_rssi()), (None, 0));
    // News, its copy, a source of 0, an echo and a runt: all were received.
    let packets =
        [packet(9, 3, 1, b"a"), packet(9, 3, 1, b"a"), vec![0, 1, 2, 3], packet(5, 1, 1, b"b"), vec![7]];
    for (i, p) in packets.into_iter().enumerate() {
        let (at, rssi) = (10 + i as u32, -50 - i as i16);
        node.radio_mut().heard.push_back((p, rssi));
        assert_eq!(node.poll(at, at + 100, &mut rng, 1).is_some(), i == 0);
        assert_eq!((node.last_rx_ms(), node.last_rssi()), (Some(at + 100), rssi));
    }
    let last = (node.last_rx_ms(), node.last_rssi());
    assert!(node.poll(900, 900, &mut rng, 1).is_none());
    assert!(node.broadcast(b"x").is_ok());
    node.send_due_repeat(901);
    node.reconfigure(&config(6, Role::Repeater));
    assert_eq!((node.last_rx_ms(), node.last_rssi()), last);
}

#[test]
fn a_packet_is_heard_and_taken_in() {
    let mut node = Node::new(Air::default(), &config(5, Role::Leaf));
    let mut rng = Random::new();
    assert_eq!(node.hear(), None);
    node.radio_mut().heard.push_back((packet(9, 3, 1, b"pos"), -80));
    let (len, rssi) = node.hear().unwrap();
    assert_eq!((len, rssi, node.last_rx_ms()), (6, -80, None));
    let got = node.take_in(len, rssi, 1, 2, &mut rng, 3).expect("news");
    assert_eq!((got.src, got.payload), (9, &b"pos"[..]));
    assert_eq!(node.last_rx_ms(), Some(2));
}

#[test]
fn a_repeater_passes_a_packet_on() {
    let mut node = Node::new(Air::default(), &config(5, Role::Repeater));
    let mut rng = Random::new();
    node.radio_mut().heard.push_back((packet(9, 3, 2, b"pos"), -80));
    assert!(node.poll(100, 100, &mut rng, 7).is_some());
    assert!(!node.send_due_repeat(99));
    // Long past any jitter.
    assert!(node.repeat_due(100 + 100_000));
    assert!(node.send_due_repeat(100 + 100_000));
    assert_eq!(node.radio().sent, vec![packet(9, 3, 1, b"pos")]);
    assert!(!node.send_due_repeat(100 + 100_000));
    // Without hops left a packet goes no further.
    node.radio_mut().heard.push_back((packet(9, 4, 0, b"pos"), -80));
    assert!(node.poll(200, 200, &mut rng, 7).is_some());
    assert!(!node.repeat_due(200 + 100_000));
}

#[test]
fn history_keeps_the_others() {
    let mut node = NodeState::new(&config(5, Role::Leaf));
    for i in 0..SEEN_SLOTS {
        assert!(!node.mark_seen(i as u8 + 10, 0, i as u32));
    }
    for i in 0..SEEN_SLOTS {
        assert!(node.mark_seen(i as u8 + 10, 0, 100));
    }
}

#[test]
fn a_full_history_forgets_the_oldest() {
    let mut node = NodeState::new(&config(5, Role::Leaf));
    for i in 0..SEEN_SLOTS {
        node.mark_seen(i as u8 + 10, 0, i as u32);
    }
    assert!(!node.mark_seen(200, 0, 50));
    assert!(!node.mark_seen(10, 0, 51));
    assert!(node.mark_seen(200, 0, 52));
}

#[test]
fn reconfiguring_keeps_the_numbering() {
    let mut node = Node::new(Air::default(), &config(5, Role::Leaf));
    assert!(node.broadcast(b"a").is_ok());
    node.reconfigure(&config(6, Role::Leaf));
    assert!(node.broadcast(b"b").is_ok());
    assert_eq!(node.radio().sent[1][..2], [6, 1]);
}

#[test]
fn bytes_written_go_out_as_one_packet() {
    let mut io = LoraIo::new(Air::default());
    assert_eq!(io.write(&[1, 2, 3]), Ok(3));
    assert_eq!(io.write(&[4]), Ok(1));
    assert_eq!(io.flush(), Ok(()));
    assert_eq!(io.flush(), Ok(()));
    assert_eq!(io.inner().sent, vec![vec![1, 2, 3, 4]]);
    assert_eq!(io.write(&[9; BUF_SIZE + 5]), Ok(BUF_SIZE));
    assert_eq!(io.write(&[9]), Err(IoError::BufferFull));
    io.inner().broken = true;
    assert_eq!(io.flush(), Err(IoError::Radio));
}

#[test]
fn a_packet_is_read_as_bytes() {
    let mut io = LoraIo::new(Air::default());
    let mut buf = [0u8; 2];
    assert_eq!(io.read_ready(1), Ok(false));
    assert_eq!(io.read(1, &mut buf), Ok(0));
    assert_eq!(io.last_rx_ms(), None);
    io.inner().heard.push_back((vec![7, 8, 9], -55));
    assert_eq!(io.read_ready(42), Ok(true));
    assert_eq!((io.last_rssi(), io.last_rx_ms()), (-55, Some(42)));
    // Asked with a whole buffer, and only while nothing is left over.
    assert_eq!(io.inner().rooms, [BUF_SIZE; 3]);
    assert_eq!(io.read_ready(42), Ok(true));
    assert_eq!(io.inner().rooms.len(), 3);
    assert_eq!(io.read(43, &mut buf), Ok(2));
    assert_eq!(buf, [7, 8]);
    assert_eq!(io.read(44, &mut buf), Ok(1));
    assert_eq!(buf[0], 9);
    assert_eq!(io.last_rx_ms(), Some(42));
    io.inner().broken = true;
    assert_eq!(io.read_ready(45), Err(IoError::Radio));
    assert_eq!(io.read(45, &mut buf), Err(IoError::Radio));
}
