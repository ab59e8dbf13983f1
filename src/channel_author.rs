//! The author's side of a channel: announcing it, granting and revoking
//! access, and publishing packets on one linear chain.
use vstd::prelude::*;
use crate::ledger::{
    appended, resolves, signature_valid, ContentType, Envelope, MemoryTransport, Signature,
};
use crate::link::{ChannelError, Link};
use crate::payload::{copy_bytes, encode, encode_spec, PacketPayload, PayloadView};

verus! {

/// The author's state as plain values.
pub struct AuthorView {
    pub author_id: u64,
    pub channel: u64,
    pub announcement: Option<Link>,
    pub last_keyload: Option<Link>,
    pub previous_msg: Option<Link>,
    pub grantees: Seq<u64>,
}

/// The link a new keyload or packet chains off: the latest message, else the
/// latest keyload, else the announcement.
pub open spec fn parent(v: AuthorView) -> Option<Link> {
    if v.previous_msg is Some {
        v.previous_msg
    } else if v.last_keyload is Some {
        v.last_keyload
    } else {
        v.announcement
    }
}

/// The grant list with `x` added, unless it is there already.
pub open spec fn with_grantee(g: Seq<u64>, x: u64) -> Seq<u64> {
    if g.contains(x) {
        g
    } else {
        g.push(x)
    }
}

/// The grant list with every occurrence of `x` taken out, order kept.
pub open spec fn without_grantee(g: Seq<u64>, x: u64) -> Seq<u64>
    decreases g.len(),
{
    if g.len() == 0 {
        g
    } else {
        let r = without_grantee(g.drop_last(), x);
        if g.last() == x {
            r
        } else {
            r.push(g.last())
        }
    }
}

/// `e` is the packet of kind `kind` at `l`, chained off `prev`, published by
/// `author` with payload `v`; signed packets carry the author's signature.
pub open spec fn is_packet(
    e: Envelope,
    kind: ContentType,
    l: Link,
    prev: Link,
    author: u64,
    v: PayloadView,
) -> bool {
    &&& e.kind == kind
    &&& e.link == l
    &&& e.previous == Some(prev)
    &&& e.sender == author
    &&& (e.public_bytes@, e.masked_bytes@) == encode_spec(v)
    &&& kind == ContentType::Signed ==> signature_valid(e, author)
    &&& kind == ContentType::Tagged ==> e.signature is None
}

/// `e` is the keyload at `l`, chained off `prev`, published by `author`,
/// granting exactly `grants`.
pub open spec fn is_keyload(e: Envelope, l: Link, prev: Link, author: u64, grants: Seq<u64>) -> bool {
    &&& e.kind == ContentType::Keyload
    &&& e.link == l
    &&& e.previous == Some(prev)
    &&& e.sender == author
    &&& e.grants@ == grants
}

fn copy_ids(src: &Vec<u64>) -> (r: Vec<u64>)
    ensures
        r@ == src@,
{
    let mut r: Vec<u64> = Vec::new();
    let mut i: usize = 0;
    while i < src.len()
        invariant
            i <= src@.len(),
            r@ == src@.subrange(0, i as int),
        decreases src@.len() - i,
    {
        r.push(src[i]);
        i = i + 1;
        assert(r@ =~= src@.subrange(0, i as int));
    }
    assert(src@.subrange(0, src@.len() as int) =~= src@);
    r
}

fn contains_id(g: &Vec<u64>, x: u64) -> (r: bool)
    ensures
        r == g@.contains(x),
{
    let mut i: usize = 0;
    while i < g.len()
        invariant
            i <= g@.len(),
            forall|k: int| 0 <= k < i ==> g@[k] != x,
        decreases g@.len() - i,
    {
        if g[i] == x {
            assert(g@[i as int] == x);
            return true;
        }
        i = i + 1;
    }
    false
}

fn remove_id(g: &Vec<u64>, x: u64) -> (r: Vec<u64>)
    ensures
        r@ == without_grantee(g@, x),
{
    let mut r: Vec<u64> = Vec::new();
    let mut i: usize = 0;
    while i < g.len()
        invariant
            i <= g@.len(),
            r@ == without_grantee(g@.subrange(0, i as int), x),
        decreases g@.len() - i,
    {
        assert(g@.subrange(0, i + 1).drop_last() =~= g@.subrange(0, i as int));
        if g[i] != x {
            r.push(g[i]);
        }
        i = i + 1;
    }
    assert(g@.subrange(0, g@.len() as int) =~= g@);
    r
}

/// The author of one channel.
pub struct Channel {
    author_id: u64,
    channel_address: u64,
    announcement: Option<Link>,
    last_keyload: Option<Link>,
    previous_msg: Option<Link>,
    grantees: Vec<u64>,
}

impl View for Channel {
    type V = AuthorView;

    closed spec fn view(&self) -> AuthorView {
        AuthorView {
            author_id: self.author_id,
            channel: self.channel_address,
            announcement: self.announcement,
            last_keyload: self.last_keyload,
            previous_msg: self.previous_msg,
            grantees: self.grantees@,
        }
    }
}

impl Channel {
    /// A channel at `channel_address`, owned by the author with public id
    /// `author_id`, not yet announced.
    pub fn new(author_id: u64, channel_address: u64) -> (r: Channel)
        ensures
            r@ == (AuthorView {
                author_id,
                channel: channel_address,
                announcement: None,
                last_keyload: None,
                previous_msg: None,
                grantees: Seq::empty(),
            }),
    {
        Channel {
            author_id,
            channel_address,
            announcement: None,
            last_keyload: None,
            previous_msg: None,
            grantees: Vec::new(),
        }
    }

    pub fn channel_address(&self) -> (r: u64)
        ensures
            r == self@.channel,
    {
        self.channel_address
    }

    pub fn announcement_link(&self) -> (r: Option<Link>)
        ensures
            r == self@.announcement,
    {
        self.announcement
    }

    /// Announces the channel: publishes its root message and returns the
    /// channel address with the announcement link. A channel is announced once.
    pub fn open(&mut self, t: &mut MemoryTransport) -> (r: Result<(u64, Link), ChannelError>)
        requires
            old(t).wf(),
        ensures
            final(t).wf(),
            old(self)@.announcement is Some ==> r == Err::<(u64, Link), ChannelError>(
                ChannelError::AlreadyAnnounced,
            ) && final(self)@ == old(self)@ && final(t)@ == old(t)@,
            old(self)@.announcement is None ==> {
                let l = Link { channel: old(self)@.channel, msg: old(t)@.len() as usize };
                &&& r == Ok::<(u64, Link), ChannelError>((old(self)@.channel, l))
                &&& appended(old(t)@, final(t)@)
                &&& final(t)@.last().kind == ContentType::Announce
                &&& final(t)@.last().link == l
                &&& final(t)@.last().previous is None
                &&& final(t)@.last().sender == old(self)@.author_id
                &&& final(self)@ == AuthorView { announcement: Some(l), ..old(self)@ }
            },
    {
        if self.announcement.is_some() {
            return Err(ChannelError::AlreadyAnnounced);
        }
        let env = Envelope {
            kind: ContentType::Announce,
            link: Link { channel: self.channel_address, msg: 0 },
            previous: None,
            sender: self.author_id,
            public_bytes: Vec::new(),
            masked_bytes: Vec::new(),
            grants: Vec::new(),
            signature: None,
        };
        match t.publish(self.channel_address, env) {
            Ok(l) => {
                self.announcement = Some(l);
                Ok((self.channel_address, l))
            },
            Err(e) => Err(e),
        }
    }

    fn parent_link(&self) -> (r: Option<Link>)
        ensures
            r == parent(self@),
    {
        if self.previous_msg.is_some() {
            self.previous_msg
        } else if self.last_keyload.is_some() {
            self.last_keyload
        } else {
            self.announcement
        }
    }

    /// Publishes a keyload granting `grants`, chained off the parent link; on
    /// success it becomes the latest keyload and the latest message.
    fn publish_keyload(&mut self, t: &mut MemoryTransport, grants: Vec<u64>) -> (r: Result<
        Link,
        ChannelError,
    >)
        requires
            old(t).wf(),
            old(self)@.announcement is Some,
        ensures
            final(t).wf(),
            !resolves(old(t)@, parent(old(self)@)->Some_0) ==> r == Err::<Link, ChannelError>(
                ChannelError::NotFound,
            ) && final(self)@ == old(self)@ && final(t)@ == old(t)@,
            resolves(old(t)@, parent(old(self)@)->Some_0) ==> {
                let l = Link { channel: old(self)@.channel, msg: old(t)@.len() as usize };
                &&& r == Ok::<Link, ChannelError>(l)
                &&& appended(old(t)@, final(t)@)
                &&& is_keyload(
                    final(t)@.last(),
                    l,
                    parent(old(self)@)->Some_0,
                    old(self)@.author_id,
                    grants@,
                )
                &&& final(self)@ == AuthorView {
                    last_keyload: Some(l),
                    previous_msg: Some(l),
                    grantees: grants@,
                    ..old(self)@
                }
            },
    {
        let prev = self.parent_link();
        let env = Envelope {
            kind: ContentType::Keyload,
            link: Link { channel: self.channel_address, msg: 0 },
            previous: prev,
            sender: self.author_id,
            public_bytes: Vec::new(),
            masked_bytes: Vec::new(),
            grants: copy_ids(&grants),
            signature: None,
        };
        match t.publish(self.channel_address, env) {
            Ok(l) => {
                self.last_keyload = Some(l);
                self.previous_msg = Some(l);
                self.grantees = grants;
                Ok(l)
            },
            Err(e) => Err(e),
        }
    }

    /// Grants the subscriber behind the subscription at `subscribe_link`
    /// access: adds it to the grant list, which keeps earlier grantees, and
    /// publishes a keyload for that list. Returns the keyload's link.
    pub fn add_subscriber(&mut self, t: &mut MemoryTransport, subscribe_link: Link) -> (r: Result<
        Link,
        ChannelError,
    >)
        requires
            old(t).wf(),
        ensures
            final(t).wf(),
            r is Err ==> final(self)@ == old(self)@ && final(t)@ == old(t)@,
            old(self)@.announcement is None ==> r == Err::<Link, ChannelError>(
                ChannelError::NotAnnounced,
            ),
            old(self)@.announcement is Some && !resolves(old(t)@, subscribe_link) ==> r == Err::<
                Link,
                ChannelError,
            >(ChannelError::NotFound),
            old(self)@.announcement is Some && resolves(old(t)@, subscribe_link) ==> {
                let s = old(t)@[subscribe_link.msg as int];
                let g = with_grantee(old(self)@.grantees, s.sender);
                let p = parent(old(self)@)->Some_0;
                let l = Link { channel: old(self)@.channel, msg: old(t)@.len() as usize };
                if s.kind != ContentType::Subscribe || subscribe_link.channel != old(self)@.channel
                    || s.previous != old(self)@.announcement {
                    r == Err::<Link, ChannelError>(ChannelError::InvalidSubscription)
                } else if !resolves(old(t)@, p) {
                    r == Err::<Link, ChannelError>(ChannelError::NotFound)
                } else {
                    &&& r == Ok::<Link, ChannelError>(l)
                    &&& appended(old(t)@, final(t)@)
                    &&& is_keyload(final(t)@.last(), l, p, old(self)@.author_id, g)
                    &&& final(self)@ == AuthorView {
                        last_keyload: Some(l),
                        previous_msg: Some(l),
                        grantees: g,
                        ..old(self)@
                    }
                }
            },
    {
        if self.announcement.is_none() {
            return Err(ChannelError::NotAnnounced);
        }
        let sender = match t.fetch(subscribe_link) {
            None => {
                return Err(ChannelError::NotFound);
            },
            Some(s) => {
                if s.kind != ContentType::Subscribe || subscribe_link.channel
                    != self.channel_address || s.previous != self.announcement {
                    return Err(ChannelError::InvalidSubscription);
                }
                s.sender
            },
        };
        let mut grants = copy_ids(&self.grantees);
        if !contains_id(&grants, sender) {
            grants.push(sender);
        }
        self.publish_keyload(t, grants)
    }

    /// Revokes the subscriber with public id `subscriber_id`: takes it out of
    /// the grant list and publishes a keyload for the reduced list, so that it
    /// cannot read the masked half of packets published after it. Returns the
    /// keyload's link.
    pub fn revoke(&mut self, t: &mut MemoryTransport, subscriber_id: u64) -> (r: Result<
        Link,
        ChannelError,
    >)
        requires
            old(t).wf(),
        ensures
            final(t).wf(),
            r is Err ==> final(self)@ == old(self)@ && final(t)@ == old(t)@,
            old(self)@.announcement is None ==> r == Err::<Link, ChannelError>(
                ChannelError::NotAnnounced,
            ),
            old(self)@.announcement is Some ==> {
                let g = without_grantee(old(self)@.grantees, subscriber_id);
                let p = parent(old(self)@)->Some_0;
                let l = Link { channel: old(self)@.channel, msg: old(t)@.len() as usize };
                if !resolves(old(t)@, p) {
                    r == Err::<Link, ChannelError>(ChannelError::NotFound)
                } else {
                    &&& r == Ok::<Link, ChannelError>(l)
                    &&& appended(old(t)@, final(t)@)
                    &&& is_keyload(final(t)@.last(), l, p, old(self)@.author_id, g)
                    &&& final(self)@ == AuthorView {
                        last_keyload: Some(l),
                        previous_msg: Some(l),
                        grantees: g,
                        ..old(self)@
                    }
                }
            },
    {
        if self.announcement.is_none() {
            return Err(ChannelError::NotAnnounced);
        }
        let grants = remove_id(&self.grantees, subscriber_id);
        self.publish_keyload(t, grants)
    }

    /// Publishes a packet of kind `kind` with `payload`, chained off the
    /// parent link; on success it becomes the latest message.
    fn publish_packet(
        &mut self,
        t: &mut MemoryTransport,
        kind: ContentType,
        payload: &PacketPayload,
    ) -> (r: Result<Link, ChannelError>)
        requires
            old(t).wf(),
            kind == ContentType::Signed || kind == ContentType::Tagged,
        ensures
            final(t).wf(),
            r is Err ==> final(self)@ == old(self)@ && final(t)@ == old(t)@,
            old(self)@.last_keyload is None ==> r == Err::<Link, ChannelError>(
                ChannelError::NoKeyloadYet,
            ),
            old(self)@.last_keyload is Some ==> {
                let p = parent(old(self)@)->Some_0;
                let l = Link { channel: old(self)@.channel, msg: old(t)@.len() as usize };
                if !resolves(old(t)@, p) {
                    r == Err::<Link, ChannelError>(ChannelError::NotFound)
                } else {
                    &&& r == Ok::<Link, ChannelError>(l)
                    &&& appended(old(t)@, final(t)@)
                    &&& is_packet(final(t)@.last(), kind, l, p, old(self)@.author_id, payload.view())
                    &&& final(self)@ == AuthorView { previous_msg: Some(l), ..old(self)@ }
                }
            },
    {
        if self.last_keyload.is_none() {
            return Err(ChannelError::NoKeyloadYet);
        }
        let prev = self.parent_link();
        let (public_bytes, masked_bytes) = encode(payload);
        let signature = if kind == ContentType::Signed {
            Some(
                Signature {
                    signer: self.author_id,
                    public_bytes: copy_bytes(&public_bytes, 0),
                    masked_bytes: copy_bytes(&masked_bytes, 0),
                    previous: prev,
                },
            )
        } else {
            None
        };
        assert(public_bytes@.subrange(0, public_bytes@.len() as int) =~= public_bytes@);
        assert(masked_bytes@.subrange(0, masked_bytes@.len() as int) =~= masked_bytes@);
        let env = Envelope {
            kind,
            link: Link { channel: self.channel_address, msg: 0 },
            previous: prev,
            sender: self.author_id,
            public_bytes,
            masked_bytes,
            grants: Vec::new(),
            signature,
        };
        match t.publish(self.channel_address, env) {
            Ok(l) => {
                self.previous_msg = Some(l);
                Ok(l)
            },
            Err(e) => Err(e),
        }
    }

    /// Publishes a signed packet: its public and masked halves encode
    /// `payload`, and it carries the author's signature over both halves and
    /// its back-link. Returns the packet's link.
    pub fn write_signed(&mut self, t: &mut MemoryTransport, payload: &PacketPayload) -> (r: Result<
        Link,
        ChannelError,
    >)
        requires
            old(t).wf(),
        ensures
            final(t).wf(),
            r is Err ==> final(self)@ == old(self)@ && final(t)@ == old(t)@,
            old(self)@.last_keyload is None ==> r == Err::<Link, ChannelError>(
                ChannelError::NoKeyloadYet,
            ),
            old(self)@.last_keyload is Some ==> {
                let p = parent(old(self)@)->Some_0;
                let l = Link { channel: old(self)@.channel, msg: old(t)@.len() as usize };
                if !resolves(old(t)@, p) {
                    r == Err::<Link, ChannelError>(ChannelError::NotFound)
                } else {
                    &&& r == Ok::<Link, ChannelError>(l)
                    &&& appended(old(t)@, final(t)@)
                    &&& is_packet(
                        final(t)@.last(),
                        ContentType::Signed,
                        l,
                        p,
                        old(self)@.author_id,
                        payload.view(),
                    )
                    &&& final(self)@ == AuthorView { previous_msg: Some(l), ..old(self)@ }
                }
            },
    {
        self.publish_packet(t, ContentType::Signed, payload)
    }

    /// Publishes a tagged packet: like a signed one, but without a signature.
    /// Returns the packet's link.
    pub fn write_tagged(&mut self, t: &mut MemoryTransport, payload: &PacketPayload) -> (r: Result<
        Link,
        ChannelError,
    >)
        requires
            old(t).wf(),
        ensures
            final(t).wf(),
            r is Err ==> final(self)@ == old(self)@ && final(t)@ == old(t)@,
            old(self)@.last_keyload is None ==> r == Err::<Link, ChannelError>(
                ChannelError::NoKeyloadYet,
            ),
            old(self)@.last_keyload is Some ==> {
                let p = parent(old(self)@)->Some_0;
                let l = Link { channel: old(self)@.channel, msg: old(t)@.len() as usize };
                if !resolves(old(t)@, p) {
                    r == Err::<Link, ChannelError>(ChannelError::NotFound)
                } else {
                    &&& r == Ok::<Link, ChannelError>(l)
                    &&& appended(old(t)@, final(t)@)
                    &&& is_packet(
                        final(t)@.last(),
                        ContentType::Tagged,
                        l,
                        p,
                        old(self)@.author_id,
                        payload.view(),
                    )
                    &&& final(self)@ == AuthorView { previous_msg: Some(l), ..old(self)@ }
                }
            },
    {
        self.publish_packet(t, ContentType::Tagged, payload)
    }
}

} // verus!
