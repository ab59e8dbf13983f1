use channels_lite::channel_author::Channel as Author;
use channels_lite::channel_subscriber::Channel as Subscriber;
use channels_lite::ledger::{ContentType, Envelope, MemoryTransport};
use channels_lite::link::{ChannelError, Link};
use channels_lite::payload::{decode, decode_half, encode, encode_half, PacketPayload};

const CHANNEL: u64 = 77;
const AUTHOR: u64 = 5;
const SUB: u64 = 11;

fn payload(public: &str, masked: &str) -> PacketPayload {
    PacketPayload {
        public: Some(public.as_bytes().to_vec()),
        masked: Some(masked.as_bytes().to_vec()),
    }
}

fn some(s: &str) -> Option<Vec<u8>> {
    Some(s.as_bytes().to_vec())
}

/// Announced channel, connected subscriber, granted keyload taken.
fn keyed_setup(t: &mut MemoryTransport) -> (Author, Subscriber, Link, Link, Link) {
    let mut author = Author::new(AUTHOR, CHANNEL);
    let (_, a0) = author.open(t).unwrap();
    let mut sub = Subscriber::new(SUB, CHANNEL, a0.msg);
    let s0 = sub.connect(t).unwrap();
    let k0 = author.add_subscriber(t, s0).unwrap();
    sub.update_keyload(t, k0).unwrap();
    (author, sub, a0, s0, k0)
}

#[test]
fn sample_end_to_end() {
    let mut t = MemoryTransport::new();
    let mut author = Author::new(AUTHOR, CHANNEL);
    let (address, a0) = author.open(&mut t).unwrap();
    assert_eq!(address, CHANNEL);
    assert_eq!(a0, Link::new(CHANNEL, 0));
    let mut sub = Subscriber::new(SUB, address, a0.msg);
    let s0 = sub.connect(&mut t).unwrap();
    assert_eq!(s0, Link::new(CHANNEL, 1));
    let k0 = author.add_subscriber(&mut t, s0).unwrap();
    assert_eq!(k0, Link::new(CHANNEL, 2));
    sub.update_keyload(&t, k0).unwrap();
    let m0 = author.write_signed(&mut t, &payload("P1", "M1")).unwrap();
    assert_eq!(m0, Link::new(CHANNEL, 3));
    assert_eq!(t.fetch(m0).unwrap().previous, Some(k0));
    assert_eq!(sub.get_next_message(&t), vec![m0]);
    assert_eq!(sub.read_signed(&t, m0), Ok((some("P1"), some("M1"))));
}

#[test]
fn granted_subscriber_recovers_signed_payload() {
    let mut t = MemoryTransport::new();
    let (mut author, mut sub, _, _, _) = keyed_setup(&mut t);
    let p = payload("temperature", "secret reading");
    let m = author.write_signed(&mut t, &p).unwrap();
    let links = sub.get_next_message(&t);
    assert_eq!(links, vec![m]);
    assert_eq!(sub.read_signed(&t, m), Ok((p.public.clone(), p.masked.clone())));
}

#[test]
fn granted_subscriber_reads_tagged_and_half_payloads() {
    let mut t = MemoryTransport::new();
    let (mut author, mut sub, _, _, _) = keyed_setup(&mut t);
    let only_public = PacketPayload { public: some("pub"), masked: None };
    let only_masked = PacketPayload { public: None, masked: some("hidden") };
    let m1 = author.write_signed(&mut t, &only_public).unwrap();
    let m2 = author.write_signed(&mut t, &only_masked).unwrap();
    let m3 = author.write_tagged(&mut t, &payload("tp", "tm")).unwrap();
    assert_eq!(sub.get_next_message(&t), vec![m1, m2, m3]);
    assert_eq!(sub.read_signed(&t, m1), Ok((some("pub"), None)));
    assert_eq!(sub.read_signed(&t, m2), Ok((None, some("hidden"))));
    assert_eq!(sub.read_tagged(&t, m3), Ok((some("tp"), some("tm"))));
    assert_eq!(t.fetch(m3).unwrap().signature.is_none(), true);
}

#[test]
fn unkeyed_subscriber_sees_public_half_only() {
    let mut t = MemoryTransport::new();
    let mut author = Author::new(AUTHOR, CHANNEL);
    let (_, a0) = author.open(&mut t).unwrap();
    let mut granted = Subscriber::new(SUB, CHANNEL, a0.msg);
    let s0 = granted.connect(&mut t).unwrap();
    let mut outsider = Subscriber::new(99, CHANNEL, a0.msg);
    outsider.connect(&mut t).unwrap();
    let k0 = author.add_subscriber(&mut t, s0).unwrap();
    // The keyload does not name the outsider: taking it changes nothing.
    outsider.update_keyload(&t, k0).unwrap();
    assert_eq!(outsider.cursor(), None);
    let m = author.write_signed(&mut t, &payload("P", "M")).unwrap();
    let t2 = author.write_tagged(&mut t, &payload("TP", "TM")).unwrap();
    assert_eq!(outsider.read_signed(&t, m), Ok((some("P"), None)));
    assert_eq!(outsider.read_tagged(&t, t2), Ok((some("TP"), None)));
}

#[test]
fn poll_twice_returns_nothing_new() {
    let mut t = MemoryTransport::new();
    let (mut author, mut sub, _, _, k0) = keyed_setup(&mut t);
    assert_eq!(sub.cursor(), Some(k0));
    assert_eq!(sub.get_next_message(&t), Vec::<Link>::new());
    let m = author.write_signed(&mut t, &payload("a", "b")).unwrap();
    assert_eq!(sub.get_next_message(&t), vec![m]);
    assert_eq!(sub.get_next_message(&t), Vec::<Link>::new());
    assert_eq!(sub.cursor(), Some(m));
}

#[test]
fn poll_after_n_publishes_returns_n_links_in_order() {
    let mut t = MemoryTransport::new();
    let (mut author, mut sub, _, _, _) = keyed_setup(&mut t);
    let mut expected = Vec::new();
    for i in 0..4u8 {
        let p = PacketPayload { public: Some(vec![i]), masked: Some(vec![i, i]) };
        expected.push(author.write_signed(&mut t, &p).unwrap());
    }
    assert_eq!(sub.get_next_message(&t), expected);
    let more = author.write_tagged(&mut t, &payload("x", "y")).unwrap();
    assert_eq!(sub.get_next_message(&t), vec![more]);
    assert_eq!(sub.get_next_message(&t), Vec::<Link>::new());
}

#[test]
fn poll_from_announcement_skips_subscriptions() {
    let mut t = MemoryTransport::new();
    let mut author = Author::new(AUTHOR, CHANNEL);
    let (_, a0) = author.open(&mut t).unwrap();
    let mut sub = Subscriber::new(SUB, CHANNEL, a0.msg);
    let s0 = sub.connect(&mut t).unwrap();
    let k0 = author.add_subscriber(&mut t, s0).unwrap();
    let m0 = author.write_signed(&mut t, &payload("p", "m")).unwrap();
    assert_eq!(sub.get_next_message(&t), vec![k0, m0]);
    assert_eq!(sub.cursor(), Some(m0));
}

#[test]
fn revocation_hides_later_masked_halves() {
    let mut t = MemoryTransport::new();
    let (mut author, mut sub, _, _, _) = keyed_setup(&mut t);
    let m1 = author.write_signed(&mut t, &payload("P1", "M1")).unwrap();
    assert_eq!(sub.get_next_message(&t), vec![m1]);
    assert_eq!(sub.read_signed(&t, m1), Ok((some("P1"), some("M1"))));
    let k1 = author.revoke(&mut t, SUB).unwrap();
    assert_eq!(t.fetch(k1).unwrap().grants, Vec::<u64>::new());
    let m2 = author.write_signed(&mut t, &payload("P2", "M2")).unwrap();
    sub.update_keyload(&t, k1).unwrap();
    assert_eq!(sub.get_next_message(&t), vec![k1, m2]);
    assert_eq!(sub.read_signed(&t, m1), Ok((some("P1"), some("M1"))));
    assert_eq!(sub.read_signed(&t, m2), Ok((some("P2"), None)));
}

#[test]
fn grant_list_is_cumulative() {
    let mut t = MemoryTransport::new();
    let mut author = Author::new(AUTHOR, CHANNEL);
    let (_, a0) = author.open(&mut t).unwrap();
    let mut s1 = Subscriber::new(1, CHANNEL, a0.msg);
    let mut s2 = Subscriber::new(2, CHANNEL, a0.msg);
    let l1 = s1.connect(&mut t).unwrap();
    let l2 = s2.connect(&mut t).unwrap();
    let k1 = author.add_subscriber(&mut t, l1).unwrap();
    let k2 = author.add_subscriber(&mut t, l2).unwrap();
    let k3 = author.add_subscriber(&mut t, l1).unwrap();
    assert_eq!(t.fetch(k1).unwrap().grants, vec![1]);
    assert_eq!(t.fetch(k2).unwrap().grants, vec![1, 2]);
    assert_eq!(t.fetch(k3).unwrap().grants, vec![1, 2]);
    assert_eq!(t.fetch(k2).unwrap().previous, Some(k1));
}

#[test]
fn tampered_signed_packet_is_refused() {
    let mut t = MemoryTransport::new();
    let (mut author, sub, _, _, _) = keyed_setup(&mut t);
    let m = author.write_signed(&mut t, &payload("P", "M")).unwrap();
    let original: Envelope = t.fetch(m).unwrap().clone();
    assert_eq!(sub.read_envelope(&t, &original, ContentType::Signed), Ok((some("P"), some("M"))));
    let mut bad_public = original.clone();
    bad_public.public_bytes[1] = b'X';
    assert_eq!(
        sub.read_envelope(&t, &bad_public, ContentType::Signed),
        Err(ChannelError::SignatureInvalid)
    );
    let mut bad_masked = original.clone();
    bad_masked.masked_bytes.push(b'!');
    assert_eq!(
        sub.read_envelope(&t, &bad_masked, ContentType::Signed),
        Err(ChannelError::SignatureInvalid)
    );
    let mut unsigned = original.clone();
    unsigned.signature = None;
    assert_eq!(
        sub.read_envelope(&t, &unsigned, ContentType::Signed),
        Err(ChannelError::SignatureInvalid)
    );
}

#[test]
fn codec_round_trip() {
    let cases = vec![
        payload("a", "b"),
        PacketPayload { public: None, masked: None },
        PacketPayload { public: Some(vec![]), masked: Some(vec![0, 1, 2]) },
        PacketPayload { public: Some(vec![1, 1]), masked: None },
    ];
    for p in cases {
        let (pb, mb) = encode(&p);
        let d = decode(&pb, &mb).unwrap();
        assert_eq!(d.public, p.public);
        assert_eq!(d.masked, p.masked);
    }
}

#[test]
fn codec_exact_bytes() {
    assert_eq!(encode_half(&None), Vec::<u8>::new());
    assert_eq!(encode_half(&Some(vec![7, 8])), vec![1, 7, 8]);
    assert_eq!(encode_half(&Some(vec![])), vec![1]);
    assert_eq!(decode_half(&vec![1, 9]), Ok(Some(vec![9])));
    assert_eq!(decode_half(&vec![]), Ok(None));
    assert_eq!(decode_half(&vec![2, 9]), Err(ChannelError::DecodeError));
    assert_eq!(decode(&vec![1], &vec![0]).err(), Some(ChannelError::DecodeError));
}

#[test]
fn open_twice_is_refused() {
    let mut t = MemoryTransport::new();
    let mut author = Author::new(AUTHOR, CHANNEL);
    author.open(&mut t).unwrap();
    assert_eq!(author.open(&mut t), Err(ChannelError::AlreadyAnnounced));
    assert_eq!(t.len(), 1);
}

#[test]
fn author_errors_before_announcement_and_keyload() {
    let mut t = MemoryTransport::new();
    let mut author = Author::new(AUTHOR, CHANNEL);
    assert_eq!(author.add_subscriber(&mut t, Link::new(CHANNEL, 0)), Err(ChannelError::NotAnnounced));
    assert_eq!(author.revoke(&mut t, SUB), Err(ChannelError::NotAnnounced));
    let (_, a0) = author.open(&mut t).unwrap();
    assert_eq!(author.write_signed(&mut t, &payload("p", "m")), Err(ChannelError::NoKeyloadYet));
    assert_eq!(author.write_tagged(&mut t, &payload("p", "m")), Err(ChannelError::NoKeyloadYet));
    assert_eq!(author.add_subscriber(&mut t, Link::new(CHANNEL, 42)), Err(ChannelError::NotFound));
    assert_eq!(author.add_subscriber(&mut t, a0), Err(ChannelError::InvalidSubscription));
    assert_eq!(t.len(), 1);
}

#[test]
fn subscriber_connect_errors() {
    let mut t = MemoryTransport::new();
    let mut sub = Subscriber::new(SUB, CHANNEL, 0);
    assert_eq!(sub.connect(&mut t), Err(ChannelError::AnnouncementNotFound));
    let (_, mut sub2, _, s0, k0) = keyed_setup(&mut t);
    let _ = sub2.get_next_message(&t);
    let mut wrong = Subscriber::new(SUB, CHANNEL, s0.msg);
    assert_eq!(wrong.connect(&mut t), Err(ChannelError::MalformedAnnouncement));
    let mut wrong_k = Subscriber::new(SUB, CHANNEL, k0.msg);
    assert_eq!(wrong_k.connect(&mut t), Err(ChannelError::MalformedAnnouncement));
}

#[test]
fn subscriber_sequencing_errors() {
    let mut t = MemoryTransport::new();
    let (mut author, mut sub, a0, s0, _) = keyed_setup(&mut t);
    let m = author.write_signed(&mut t, &payload("p", "m")).unwrap();
    let tg = author.write_tagged(&mut t, &payload("p", "m")).unwrap();
    let fresh = Subscriber::new(SUB, CHANNEL, a0.msg);
    assert_eq!(fresh.read_signed(&t, m), Err(ChannelError::NotConnected));
    let mut fresh2 = Subscriber::new(SUB, CHANNEL, a0.msg);
    assert_eq!(fresh2.update_keyload(&t, s0), Err(ChannelError::NotConnected));
    assert_eq!(sub.update_keyload(&t, s0), Err(ChannelError::MalformedEnvelope));
    assert_eq!(sub.update_keyload(&t, Link::new(CHANNEL, 99)), Err(ChannelError::NotFound));
    assert_eq!(sub.read_signed(&t, tg), Err(ChannelError::MalformedEnvelope));
    assert_eq!(sub.read_tagged(&t, m), Err(ChannelError::MalformedEnvelope));
    assert_eq!(sub.read_signed(&t, Link::new(CHANNEL, 99)), Err(ChannelError::NotFound));
    assert_eq!(sub.read_signed(&t, Link::new(CHANNEL + 1, m.msg)), Err(ChannelError::NotFound));
}

#[test]
fn malformed_public_bytes_give_decode_error() {
    let mut t = MemoryTransport::new();
    let (mut author, sub, _, _, _) = keyed_setup(&mut t);
    let tg = author.write_tagged(&mut t, &payload("p", "m")).unwrap();
    let mut e = t.fetch(tg).unwrap().clone();
    e.public_bytes[0] = 7;
    assert_eq!(sub.read_envelope(&t, &e, ContentType::Tagged), Err(ChannelError::DecodeError));
}

#[test]
fn disconnect_publishes_unsubscription() {
    let mut t = MemoryTransport::new();
    let (_, mut sub, _, s0, _) = keyed_setup(&mut t);
    let u = sub.disconnect(&mut t).unwrap();
    let e = t.fetch(u).unwrap();
    assert_eq!(e.kind, ContentType::Unsubscribe);
    assert_eq!(e.previous, Some(s0));
    assert_eq!(e.sender, SUB);
    assert_eq!(sub.is_connected(), false);
    assert_eq!(sub.disconnect(&mut t), Err(ChannelError::NotConnected));
}

#[test]
fn publish_requires_resolving_back_link() {
    let mut t = MemoryTransport::new();
    let e = Envelope {
        kind: ContentType::Tagged,
        link: Link::new(CHANNEL, 0),
        previous: Some(Link::new(CHANNEL, 3)),
        sender: AUTHOR,
        public_bytes: vec![],
        masked_bytes: vec![],
        grants: vec![],
        signature: None,
    };
    assert_eq!(t.publish(CHANNEL, e), Err(ChannelError::NotFound));
    assert_eq!(t.find_successor(Link::new(CHANNEL, 0)), None);
}
