//! A subscriber's side of a channel: connecting, taking keyloads, walking the
//! chain of packets and reading them.
use vstd::prelude::*;
use crate::ledger::{
    appended, chain_after, keyload_in_effect, ledger_wf, resolves, signature_valid, ContentType, Envelope,
    MemoryTransport,
};
use crate::link::{ChannelError, Link};
use crate::channel_author::is_packet;
use crate::payload::{
    decode_half, decode_half_spec, lemma_round_trip, opt_view, PayloadView,
};

verus! {

/// The subscriber's state as plain values.
pub struct SubscriberView {
    pub subscriber_id: u64,
    pub announcement: Link,
    pub author: Option<u64>,
    pub subscription: Option<Link>,
    pub is_connected: bool,
    pub keys: Seq<Link>,
    pub cursor: Option<Link>,
}

/// Where a poll starts: after the cursor, else after the announcement.
pub open spec fn frontier(v: SubscriberView) -> Link {
    match v.cursor {
        Some(c) => c,
        None => v.announcement,
    }
}

/// The cursor after processing the message at `l`: it only moves forward.
pub open spec fn advanced(c: Option<Link>, l: Link) -> Option<Link> {
    match c {
        None => Some(l),
        Some(x) => if x.msg < l.msg {
            Some(l)
        } else {
            c
        },
    }
}

/// The subscriber holds the session key that is in effect for packet `e`:
/// the keyload that last precedes it in the chain granted it, and it took that
/// keyload.
pub open spec fn masked_readable(v: SubscriberView, msgs: Seq<Envelope>, e: Envelope) -> bool {
    match keyload_in_effect(msgs, e.previous) {
        None => false,
        Some(k) => v.keys.contains(msgs[k].link),
    }
}

/// What reading packet `e` as a packet of kind `kind` gives: the decoded public
/// half, and the decoded masked half where the subscriber holds the key in
/// effect for it (absent otherwise).
pub open spec fn read_spec(v: SubscriberView, msgs: Seq<Envelope>, e: Envelope, kind: ContentType)
    -> Result<PayloadView, ChannelError> {
    if !v.is_connected {
        Err(ChannelError::NotConnected)
    } else if e.kind != kind {
        Err(ChannelError::MalformedEnvelope)
    } else if kind == ContentType::Signed && !(v.author is Some && signature_valid(
        e,
        v.author->Some_0,
    )) {
        Err(ChannelError::SignatureInvalid)
    } else if decode_half_spec(e.public_bytes@) is None {
        Err(ChannelError::DecodeError)
    } else if !masked_readable(v, msgs, e) {
        Ok((decode_half_spec(e.public_bytes@)->Some_0, None))
    } else if decode_half_spec(e.masked_bytes@) is None {
        Err(ChannelError::DecodeError)
    } else {
        Ok((decode_half_spec(e.public_bytes@)->Some_0, decode_half_spec(e.masked_bytes@)->Some_0))
    }
}

/// What reading the packet at `l` as a packet of kind `kind` gives.
pub open spec fn read_at_spec(v: SubscriberView, msgs: Seq<Envelope>, l: Link, kind: ContentType)
    -> Result<PayloadView, ChannelError> {
    if !v.is_connected {
        Err(ChannelError::NotConnected)
    } else if !resolves(msgs, l) {
        Err(ChannelError::NotFound)
    } else {
        read_spec(v, msgs, msgs[l.msg as int], kind)
    }
}

/// The subscriber after a poll: the cursor moves to the last link found.
pub open spec fn after_poll(v: SubscriberView, msgs: Seq<Envelope>) -> SubscriberView {
    let r = chain_after(msgs, frontier(v));
    SubscriberView {
        cursor: if r.len() == 0 {
            v.cursor
        } else {
            Some(r.last())
        },
        ..v
    }
}

/// A read result as plain values.
pub open spec fn read_view(r: Result<(Option<Vec<u8>>, Option<Vec<u8>>), ChannelError>) -> Result<
    PayloadView,
    ChannelError,
> {
    match r {
        Ok(p) => Ok((opt_view(p.0), opt_view(p.1))),
        Err(e) => Err(e),
    }
}

/// The link of the keyload in effect for a message with back-link `previous`.
fn keyload_for(t: &MemoryTransport, previous: Option<Link>) -> (r: Option<Link>)
    ensures
        match keyload_in_effect(t@, previous) {
            None => r is None,
            Some(k) => r == Some(t@[k].link),
        },
{
    let mut cur = match previous {
        None => {
            return None;
        },
        Some(p) => p,
    };
    loop
        invariant
            keyload_in_effect(t@, previous) == crate::ledger::keyload_at_or_before(t@, cur),
        decreases cur.msg,
    {
        match t.fetch(cur) {
            None => {
                return None;
            },
            Some(e) => {
                if e.kind == ContentType::Keyload {
                    return Some(e.link);
                }
                match e.previous {
                    None => {
                        return None;
                    },
                    Some(q) => {
                        if q.msg < cur.msg {
                            cur = q;
                        } else {
                            return None;
                        }
                    },
                }
            },
        }
    }
}

fn contains_link(keys: &Vec<Link>, l: Link) -> (r: bool)
    ensures
        r == keys@.contains(l),
{
    let mut i: usize = 0;
    while i < keys.len()
        invariant
            i <= keys@.len(),
            forall|k: int| 0 <= k < i ==> keys@[k] != l,
        decreases keys@.len() - i,
    {
        if keys[i] == l {
            assert(keys@[i as int] == l);
            return true;
        }
        i = i + 1;
    }
    false
}

/// A subscriber of one channel.
pub struct Channel {
    subscriber_id: u64,
    announcement_link: Link,
    author: Option<u64>,
    subscription_link: Option<Link>,
    is_connected: bool,
    keys: Vec<Link>,
    cursor: Option<Link>,
}

impl View for Channel {
    type V = SubscriberView;

    closed spec fn view(&self) -> SubscriberView {
        SubscriberView {
            subscriber_id: self.subscriber_id,
            announcement: self.announcement_link,
            author: self.author,
            subscription: self.subscription_link,
            is_connected: self.is_connected,
            keys: self.keys@,
            cursor: self.cursor,
        }
    }
}

impl Channel {
    /// A subscriber with public id `subscriber_id` of the channel at
    /// `channel_address`, whose announcement is message `announcement_msg`;
    /// not yet connected.
    pub fn new(subscriber_id: u64, channel_address: u64, announcement_msg: usize) -> (r: Channel)
        ensures
            r@ == (SubscriberView {
                subscriber_id,
                announcement: Link { channel: channel_address, msg: announcement_msg },
                author: None,
                subscription: None,
                is_connected: false,
                keys: Seq::empty(),
                cursor: None,
            }),
    {
        Channel {
            subscriber_id,
            announcement_link: Link { channel: channel_address, msg: announcement_msg },
            author: None,
            subscription_link: None,
            is_connected: false,
            keys: Vec::new(),
            cursor: None,
        }
    }

    pub fn is_connected(&self) -> (r: bool)
        ensures
            r == self@.is_connected,
    {
        self.is_connected
    }

    pub fn subscription_link(&self) -> (r: Option<Link>)
        ensures
            r == self@.subscription,
    {
        self.subscription_link
    }

    pub fn cursor(&self) -> (r: Option<Link>)
        ensures
            r == self@.cursor,
    {
        self.cursor
    }

    /// Connects: checks the announcement, learns the channel author from it
    /// and publishes a subscription chained off it. Returns the subscription's
    /// link, which the author needs to grant access.
    pub fn connect(&mut self, t: &mut MemoryTransport) -> (r: Result<Link, ChannelError>)
        requires
            old(t).wf(),
        ensures
            final(t).wf(),
            r is Err ==> final(self)@ == old(self)@ && final(t)@ == old(t)@,
            !resolves(old(t)@, old(self)@.announcement) ==> r == Err::<Link, ChannelError>(
                ChannelError::AnnouncementNotFound,
            ),
            resolves(old(t)@, old(self)@.announcement) ==> {
                let a = old(t)@[old(self)@.announcement.msg as int];
                let l = Link { channel: old(self)@.announcement.channel, msg: old(t)@.len() as usize };
                if a.kind != ContentType::Announce || a.previous is Some {
                    r == Err::<Link, ChannelError>(ChannelError::MalformedAnnouncement)
                } else {
                    &&& r == Ok::<Link, ChannelError>(l)
                    &&& appended(old(t)@, final(t)@)
                    &&& final(t)@.last().kind == ContentType::Subscribe
                    &&& final(t)@.last().link == l
                    &&& final(t)@.last().previous == Some(old(self)@.announcement)
                    &&& final(t)@.last().sender == old(self)@.subscriber_id
                    &&& final(self)@ == SubscriberView {
                        author: Some(a.sender),
                        subscription: Some(l),
                        is_connected: true,
                        ..old(self)@
                    }
                }
            },
    {
        let author = match t.fetch(self.announcement_link) {
            None => {
                return Err(ChannelError::AnnouncementNotFound);
            },
            Some(a) => {
                if a.kind != ContentType::Announce || a.previous.is_some() {
                    return Err(ChannelError::MalformedAnnouncement);
                }
                a.sender
            },
        };
        let env = Envelope {
            kind: ContentType::Subscribe,
            link: self.announcement_link,
            previous: Some(self.announcement_link),
            sender: self.subscriber_id,
            public_bytes: Vec::new(),
            masked_bytes: Vec::new(),
            grants: Vec::new(),
            signature: None,
        };
        match t.publish(self.announcement_link.channel, env) {
            Ok(l) => {
                self.author = Some(author);
                self.subscription_link = Some(l);
                self.is_connected = true;
                Ok(l)
            },
            Err(e) => Err(e),
        }
    }

    /// Disconnects: publishes an unsubscription chained off the subscription.
    /// Returns its link.
    pub fn disconnect(&mut self, t: &mut MemoryTransport) -> (r: Result<Link, ChannelError>)
        requires
            old(t).wf(),
        ensures
            final(t).wf(),
            r is Err ==> final(self)@ == old(self)@ && final(t)@ == old(t)@,
            !old(self)@.is_connected || old(self)@.subscription is None ==> r == Err::<
                Link,
                ChannelError,
            >(ChannelError::NotConnected),
            old(self)@.is_connected && old(self)@.subscription is Some ==> {
                let s = old(self)@.subscription->Some_0;
                let l = Link { channel: old(self)@.announcement.channel, msg: old(t)@.len() as usize };
                if !resolves(old(t)@, s) {
                    r == Err::<Link, ChannelError>(ChannelError::NotFound)
                } else {
                    &&& r == Ok::<Link, ChannelError>(l)
                    &&& appended(old(t)@, final(t)@)
                    &&& final(t)@.last().kind == ContentType::Unsubscribe
                    &&& final(t)@.last().link == l
                    &&& final(t)@.last().previous == Some(s)
                    &&& final(t)@.last().sender == old(self)@.subscriber_id
                    &&& final(self)@ == SubscriberView { is_connected: false, ..old(self)@ }
                }
            },
    {
        if !self.is_connected || self.subscription_link.is_none() {
            return Err(ChannelError::NotConnected);
        }
        let env = Envelope {
            kind: ContentType::Unsubscribe,
            link: self.announcement_link,
            previous: self.subscription_link,
            sender: self.subscriber_id,
            public_bytes: Vec::new(),
            masked_bytes: Vec::new(),
            grants: Vec::new(),
            signature: None,
        };
        match t.publish(self.announcement_link.channel, env) {
            Ok(l) => {
                self.is_connected = false;
                Ok(l)
            },
            Err(e) => Err(e),
        }
    }

    /// Takes the keyload at `keyload_link`. Where it grants this subscriber,
    /// the subscriber keeps its session key and the cursor moves up to it;
    /// where it does not, nothing changes and later packets stay unreadable.
    pub fn update_keyload(&mut self, t: &MemoryTransport, keyload_link: Link) -> (r: Result<
        (),
        ChannelError,
    >)
        ensures
            r is Err ==> final(self)@ == old(self)@,
            !old(self)@.is_connected ==> r == Err::<(), ChannelError>(ChannelError::NotConnected),
            old(self)@.is_connected && !resolves(t@, keyload_link) ==> r == Err::<(), ChannelError>(
                ChannelError::NotFound,
            ),
            old(self)@.is_connected && resolves(t@, keyload_link) ==> {
                let k = t@[keyload_link.msg as int];
                if k.kind != ContentType::Keyload {
                    r == Err::<(), ChannelError>(ChannelError::MalformedEnvelope)
                } else if k.grants@.contains(old(self)@.subscriber_id) {
                    &&& r == Ok::<(), ChannelError>(())
                    &&& final(self)@ == SubscriberView {
                        keys: old(self)@.keys.push(keyload_link),
                        cursor: advanced(old(self)@.cursor, keyload_link),
                        ..old(self)@
                    }
                } else {
                    r == Ok::<(), ChannelError>(()) && final(self)@ == old(self)@
                }
            },
    {
        if !self.is_connected {
            return Err(ChannelError::NotConnected);
        }
        match t.fetch(keyload_link) {
            None => Err(ChannelError::NotFound),
            Some(k) => {
                if k.kind != ContentType::Keyload {
                    return Err(ChannelError::MalformedEnvelope);
                }
                let mut granted = false;
                let mut i: usize = 0;
                while i < k.grants.len()
                    invariant
                        i <= k.grants@.len(),
                        granted == exists|j: int|
                            0 <= j < i && #[trigger] k.grants@[j] == self.subscriber_id,
                    decreases k.grants@.len() - i,
                {
                    if k.grants[i] == self.subscriber_id {
                        granted = true;
                    }
                    i = i + 1;
                }
                assert(granted == k.grants@.contains(self.subscriber_id));
                if granted {
                    self.keys.push(keyload_link);
                    match self.cursor {
                        None => {
                            self.cursor = Some(keyload_link);
                        },
                        Some(c) => {
                            if c.msg < keyload_link.msg {
                                self.cursor = Some(keyload_link);
                            }
                        },
                    }
                }
                Ok(())
            },
        }
    }

    /// Polls the chain: walks forward from the cursor (else from the
    /// announcement) and returns the links of the keyloads and packets found,
    /// oldest first; the cursor moves to the last of them, so no link is
    /// returned twice.
    pub fn get_next_message(&mut self, t: &MemoryTransport) -> (r: Vec<Link>)
        requires
            t.wf(),
        ensures
            r@ == chain_after(t@, frontier(old(self)@)),
            final(self)@ == after_poll(old(self)@, t@),
    {
        let start = match self.cursor {
            Some(c) => c,
            None => self.announcement_link,
        };
        let mut f = start;
        let mut r: Vec<Link> = Vec::new();
        assert(r@ + chain_after(t@, f) =~= chain_after(t@, start));
        loop
            invariant
                t.wf(),
                r@ + chain_after(t@, f) == chain_after(t@, start),
                r@.len() > 0 ==> r@.last() == f,
            ensures
                r@ == chain_after(t@, start),
                r@.len() > 0 ==> r@.last() == f,
            decreases t@.len() - f.msg,
        {
            match t.find_successor(f) {
                None => {
                    assert(r@ + chain_after(t@, f) =~= r@);
                    break;
                },
                Some(l) => {
                    proof {
                        let j = crate::ledger::next_in_chain(t@, f)->Some_0;
                        crate::ledger::lemma_first_successor_bounds(t@, f, f.msg + 1);
                        assert(chain_after(t@, f) == seq![l] + chain_after(t@, l));
                        assert(r@.push(l) + chain_after(t@, l) =~= r@ + chain_after(t@, f));
                    }
                    r.push(l);
                    f = l;
                },
            }
        }
        if r.len() > 0 {
            self.cursor = Some(f);
        }
        r
    }

    /// Reads `e` as a packet of kind `kind`: see `read_spec`.
    pub fn read_envelope(&self, t: &MemoryTransport, e: &Envelope, kind: ContentType) -> (r: Result<
        (Option<Vec<u8>>, Option<Vec<u8>>),
        ChannelError,
    >)
        ensures
            read_view(r) == read_spec(self@, t@, *e, kind),
    {
        if !self.is_connected {
            return Err(ChannelError::NotConnected);
        }
        if e.kind != kind {
            return Err(ChannelError::MalformedEnvelope);
        }
        if kind == ContentType::Signed {
            let author = match self.author {
                None => {
                    return Err(ChannelError::SignatureInvalid);
                },
                Some(a) => a,
            };
            if !verify_signature(e, author) {
                return Err(ChannelError::SignatureInvalid);
            }
        }
        let public = match decode_half(&e.public_bytes) {
            Err(x) => {
                return Err(x);
            },
            Ok(p) => p,
        };
        let readable = match keyload_for(t, e.previous) {
            None => false,
            Some(k) => contains_link(&self.keys, k),
        };
        if !readable {
            return Ok((public, None));
        }
        match decode_half(&e.masked_bytes) {
            Err(x) => Err(x),
            Ok(m) => Ok((public, m)),
        }
    }

    /// Reads the signed packet at `link`: its public half, and its masked
    /// half where this subscriber holds the key in effect for it. A packet
    /// whose signature does not match its contents is refused.
    pub fn read_signed(&self, t: &MemoryTransport, link: Link) -> (r: Result<
        (Option<Vec<u8>>, Option<Vec<u8>>),
        ChannelError,
    >)
        ensures
            read_view(r) == read_at_spec(self@, t@, link, ContentType::Signed),
    {
        self.read_at(t, link, ContentType::Signed)
    }

    /// Reads the tagged packet at `link`: its public half, and its masked
    /// half where this subscriber holds the key in effect for it.
    pub fn read_tagged(&self, t: &MemoryTransport, link: Link) -> (r: Result<
        (Option<Vec<u8>>, Option<Vec<u8>>),
        ChannelError,
    >)
        ensures
            read_view(r) == read_at_spec(self@, t@, link, ContentType::Tagged),
    {
        self.read_at(t, link, ContentType::Tagged)
    }

    fn read_at(&self, t: &MemoryTransport, link: Link, kind: ContentType) -> (r: Result<
        (Option<Vec<u8>>, Option<Vec<u8>>),
        ChannelError,
    >)
        ensures
            read_view(r) == read_at_spec(self@, t@, link, kind),
    {
        if !self.is_connected {
            return Err(ChannelError::NotConnected);
        }
        match t.fetch(link) {
            None => Err(ChannelError::NotFound),
            Some(e) => self.read_envelope(t, e, kind),
        }
    }
}

fn bytes_equal(a: &Vec<u8>, b: &Vec<u8>) -> (r: bool)
    ensures
        r == (a@ == b@),
{
    if a.len() != b.len() {
        return false;
    }
    let mut i: usize = 0;
    while i < a.len()
        invariant
            i <= a@.len(),
            a@.len() == b@.len(),
            forall|k: int| 0 <= k < i ==> a@[k] == b@[k],
        decreases a@.len() - i,
    {
        if a[i] != b[i] {
            return false;
        }
        i = i + 1;
    }
    assert(a@ =~= b@);
    true
}

/// Checks that `e` carries a signature of `author` over exactly its halves and
/// back-link.
pub fn verify_signature(e: &Envelope, author: u64) -> (r: bool)
    ensures
        r == signature_valid(*e, author),
{
    match &e.signature {
        None => false,
        Some(s) => s.signer == author && bytes_equal(&s.public_bytes, &e.public_bytes)
            && bytes_equal(&s.masked_bytes, &e.masked_bytes) && s.previous == e.previous,
    }
}

/// Polling twice with no message published in between: the second poll finds
/// nothing new.
pub proof fn lemma_poll_twice(v: SubscriberView, msgs: Seq<Envelope>)
    ensures
        chain_after(msgs, frontier(after_poll(v, msgs))).len() == 0,
{
    let r = chain_after(msgs, frontier(v));
    if r.len() > 0 {
        crate::ledger::lemma_chain_end(msgs, frontier(v));
    }
}

/// A connected subscriber that learnt the author from the announcement and
/// holds the key in effect for a signed packet the author published with
/// payload `p` reads exactly `p` back.
pub proof fn lemma_granted_reader_recovers_payload(
    v: SubscriberView,
    msgs: Seq<Envelope>,
    e: Envelope,
    l: Link,
    prev: Link,
    author: u64,
    p: PayloadView,
)
    requires
        v.is_connected,
        v.author == Some(author),
        is_packet(e, ContentType::Signed, l, prev, author, p),
        masked_readable(v, msgs, e),
    ensures
        read_spec(v, msgs, e, ContentType::Signed) == Ok::<PayloadView, ChannelError>(p),
{
    lemma_round_trip(p);
}

/// A subscriber that holds no keyload reads the public half of a packet and
/// never its masked half.
pub proof fn lemma_unkeyed_reads_public_only(
    v: SubscriberView,
    msgs: Seq<Envelope>,
    e: Envelope,
    kind: ContentType,
)
    requires
        v.keys.len() == 0,
    ensures
        !masked_readable(v, msgs, e),
        read_spec(v, msgs, e, kind) matches Ok(r) ==> r.1 is None && Some(r.0) == decode_half_spec(
            e.public_bytes@,
        ),
{
}

/// A packet whose keyload in effect the subscriber does not hold (one that
/// left it out, after a revocation) is read without its masked half.
pub proof fn lemma_revoked_reads_public_only(
    v: SubscriberView,
    msgs: Seq<Envelope>,
    e: Envelope,
    kind: ContentType,
    k: int,
)
    requires
        keyload_in_effect(msgs, e.previous) == Some(k),
        !v.keys.contains(msgs[k].link),
    ensures
        read_spec(v, msgs, e, kind) matches Ok(r) ==> r.1 is None,
{
}

/// Publishing more messages leaves what a subscriber reads at an existing
/// packet as it was: access is decided at the packet's point in the chain.
pub proof fn lemma_read_kept_when_ledger_grows(
    v: SubscriberView,
    msgs: Seq<Envelope>,
    more: Seq<Envelope>,
    l: Link,
    kind: ContentType,
)
    requires
        ledger_wf(msgs),
        resolves(msgs, l),
        more.len() >= msgs.len(),
        forall|i: int| 0 <= i < msgs.len() ==> more[i] == msgs[i],
    ensures
        read_at_spec(v, more, l, kind) == read_at_spec(v, msgs, l, kind),
{
    let e = msgs[l.msg as int];
    assert(more[l.msg as int] == e);
    if let Some(p) = e.previous {
        crate::ledger::lemma_keyload_kept_when_ledger_grows(msgs, more, p);
        if let Some(k) = keyload_in_effect(msgs, e.previous) {
            assert(more[k] == msgs[k]);
        }
    }
}

/// A signed packet whose public or masked bytes were changed after it was
/// signed is refused as carrying an invalid signature.
pub proof fn lemma_tampered_signed_refused(
    v: SubscriberView,
    msgs: Seq<Envelope>,
    e: Envelope,
    tampered: Envelope,
)
    requires
        v.is_connected,
        v.author is Some,
        signature_valid(e, v.author->Some_0),
        tampered.kind == ContentType::Signed,
        tampered.signature == e.signature,
        tampered.public_bytes@ != e.public_bytes@ || tampered.masked_bytes@ != e.masked_bytes@,
    ensures
        read_spec(v, msgs, tampered, ContentType::Signed) == Err::<PayloadView, ChannelError>(
            ChannelError::SignatureInvalid,
        ),
{
}

} // verus!
