//! Message envelopes and the append-only ledger that carries them.
use vstd::prelude::*;
use crate::link::{ChannelError, Link};

verus! {

/// What a message is.
#[derive(Clone, Copy, Debug, PartialEq, Eq, Structural)]
pub enum ContentType {
    Announce,
    Subscribe,
    Keyload,
    Signed,
    Tagged,
    Unsubscribe,
}

/// An author's signature over the halves of a packet and its back-link, as
/// the in-memory ledger carries it: the signer together with exactly the
/// bytes and the back-link it vouches for. A packet whose contents no longer
/// match them fails verification.
#[derive(Clone, Debug)]
pub struct Signature {
    pub signer: u64,
    pub public_bytes: Vec<u8>,
    pub masked_bytes: Vec<u8>,
    pub previous: Option<Link>,
}

/// One published message.
///
/// `sender` is the author for announcements, keyloads and packets, and the
/// subscriber for subscriptions. `grants` lists the subscribers a keyload
/// gives the session key to.
#[derive(Clone, Debug)]
pub struct Envelope {
    pub kind: ContentType,
    pub link: Link,
    pub previous: Option<Link>,
    pub sender: u64,
    pub public_bytes: Vec<u8>,
    pub masked_bytes: Vec<u8>,
    pub grants: Vec<u64>,
    pub signature: Option<Signature>,
}

/// Whether a signed packet carries a signature of `author` over exactly its
/// halves and back-link.
pub open spec fn signature_valid(e: Envelope, author: u64) -> bool {
    match e.signature {
        None => false,
        Some(s) => s.signer == author && s.public_bytes@ == e.public_bytes@
            && s.masked_bytes@ == e.masked_bytes@ && s.previous == e.previous,
    }
}

/// Messages that continue the chain a subscriber walks.
pub open spec fn is_chain_kind(k: ContentType) -> bool {
    k == ContentType::Keyload || k == ContentType::Signed || k == ContentType::Tagged
}

/// A message is stored at the link.
pub open spec fn resolves(msgs: Seq<Envelope>, l: Link) -> bool {
    l.msg < msgs.len() && msgs[l.msg as int].link == l
}

/// Each message sits at its own position and points back to an earlier one.
pub open spec fn ledger_wf(msgs: Seq<Envelope>) -> bool {
    forall|i: int|
        0 <= i < msgs.len() ==> (#[trigger] msgs[i]).link.msg == i && (msgs[i].previous is Some
            ==> msgs[i].previous->Some_0.msg < i)
}

/// `new` is `old` with one more message at its end.
pub open spec fn appended(old: Seq<Envelope>, new: Seq<Envelope>) -> bool {
    new.len() == old.len() + 1 && forall|i: int| 0 <= i < old.len() ==> new[i] == old[i]
}

/// Message `j` continues the chain right after `f`.
pub open spec fn is_successor(msgs: Seq<Envelope>, f: Link, j: int) -> bool {
    msgs[j].previous == Some(f) && is_chain_kind(msgs[j].kind)
}

/// The first successor of `f` at position `j` or later.
pub open spec fn first_successor_from(msgs: Seq<Envelope>, f: Link, j: int) -> Option<int>
    decreases msgs.len() - j,
{
    if j < 0 || j >= msgs.len() {
        None
    } else if is_successor(msgs, f, j) {
        Some(j)
    } else {
        first_successor_from(msgs, f, j + 1)
    }
}

/// The message that follows `f` in the chain, if one has been published.
pub open spec fn next_in_chain(msgs: Seq<Envelope>, f: Link) -> Option<int> {
    first_successor_from(msgs, f, f.msg + 1)
}

/// The links of the chain after `f`, oldest first.
pub open spec fn chain_after(msgs: Seq<Envelope>, f: Link) -> Seq<Link>
    decreases msgs.len() - f.msg,
{
    match next_in_chain(msgs, f) {
        None => Seq::empty(),
        Some(j) => {
            let l = msgs[j].link;
            if f.msg < l.msg && l.msg < msgs.len() {
                seq![l] + chain_after(msgs, l)
            } else {
                Seq::empty()
            }
        },
    }
}

/// The keyload at `l` or, walking back from it, the first keyload before it.
pub open spec fn keyload_at_or_before(msgs: Seq<Envelope>, l: Link) -> Option<int>
    decreases l.msg,
{
    if !resolves(msgs, l) {
        None
    } else if msgs[l.msg as int].kind == ContentType::Keyload {
        Some(l.msg as int)
    } else {
        match msgs[l.msg as int].previous {
            None => None,
            Some(p) => if p.msg < l.msg {
                keyload_at_or_before(msgs, p)
            } else {
                None
            },
        }
    }
}

/// The keyload in effect for a message with back-link `previous`.
pub open spec fn keyload_in_effect(msgs: Seq<Envelope>, previous: Option<Link>) -> Option<int> {
    match previous {
        None => None,
        Some(p) => keyload_at_or_before(msgs, p),
    }
}

pub proof fn lemma_first_successor_bounds(msgs: Seq<Envelope>, f: Link, j: int)
    ensures
        first_successor_from(msgs, f, j) matches Some(k) ==> j <= k < msgs.len()
            && is_successor(msgs, f, k),
    decreases msgs.len() - j,
{
    if 0 <= j < msgs.len() && !is_successor(msgs, f, j) {
        lemma_first_successor_bounds(msgs, f, j + 1);
    }
}

/// The last link of a chain has no successor.
pub proof fn lemma_chain_end(msgs: Seq<Envelope>, f: Link)
    requires
        chain_after(msgs, f).len() > 0,
    ensures
        chain_after(msgs, chain_after(msgs, f).last()).len() == 0,
    decreases msgs.len() - f.msg,
{
    let j = next_in_chain(msgs, f)->Some_0;
    let l = msgs[j].link;
    let c = chain_after(msgs, l);
    assert(chain_after(msgs, f) == seq![l] + c);
    if c.len() > 0 {
        lemma_chain_end(msgs, l);
        assert((seq![l] + c).last() == c.last());
    } else {
        assert((seq![l] + c).last() == l);
    }
}

/// Messages published later do not change the keyload found by walking back
/// from a message already stored.
pub proof fn lemma_keyload_kept_when_ledger_grows(msgs: Seq<Envelope>, more: Seq<Envelope>, l: Link)
    requires
        more.len() >= msgs.len(),
        forall|i: int| 0 <= i < msgs.len() ==> more[i] == msgs[i],
    ensures
        l.msg < msgs.len() ==> keyload_at_or_before(more, l) == keyload_at_or_before(msgs, l),
        keyload_at_or_before(msgs, l) matches Some(k) ==> 0 <= k < msgs.len(),
    decreases l.msg,
{
    if l.msg < msgs.len() {
        assert(more[l.msg as int] == msgs[l.msg as int]);
    }
    if resolves(msgs, l) && msgs[l.msg as int].kind != ContentType::Keyload {
        if let Some(p) = msgs[l.msg as int].previous {
            if p.msg < l.msg {
                lemma_keyload_kept_when_ledger_grows(msgs, more, p);
            }
        }
    }
}

/// The links of `ext`, in order.
pub open spec fn links_of(ext: Seq<Envelope>) -> Seq<Link> {
    ext.map_values(|e: Envelope| e.link)
}

/// `ext` continues the chain from `f`: each message is a keyload or packet
/// chained off the one before it, the first off `f`.
pub open spec fn continues(ext: Seq<Envelope>, f: Link) -> bool {
    forall|i: int|
        0 <= i < ext.len() ==> is_chain_kind((#[trigger] ext[i]).kind) && ext[i].previous == Some(
            if i == 0 {
                f
            } else {
                ext[i - 1].link
            },
        )
}

proof fn lemma_no_successor_from(msgs: Seq<Envelope>, f: Link, j: int)
    requires
        0 <= j,
        first_successor_from(msgs, f, j) is None,
    ensures
        forall|k: int| j <= k < msgs.len() ==> !is_successor(msgs, f, k),
    decreases msgs.len() - j,
{
    if j < msgs.len() {
        lemma_no_successor_from(msgs, f, j + 1);
    }
}

proof fn lemma_first_successor_at(msgs: Seq<Envelope>, f: Link, j: int, m: int)
    requires
        0 <= j <= m < msgs.len(),
        is_successor(msgs, f, m),
        forall|k: int| j <= k < m ==> !is_successor(msgs, f, k),
    ensures
        first_successor_from(msgs, f, j) == Some(m),
    decreases m - j,
{
    if j < m {
        lemma_first_successor_at(msgs, f, j + 1, m);
    }
}

/// Once a poll has reached `f`, the end of the chain, and the messages `ext`
/// are published continuing the chain from it, the next poll returns exactly
/// their links, in the order they were published.
#[verifier::rlimit(40)]
pub proof fn lemma_poll_after_publishes(msgs: Seq<Envelope>, ext: Seq<Envelope>, f: Link)
    requires
        ledger_wf(msgs + ext),
        resolves(msgs, f),
        next_in_chain(msgs, f) is None,
        continues(ext, f),
    ensures
        chain_after(msgs + ext, f) == links_of(ext),
    decreases ext.len(),
{
    let m = msgs + ext;
    if ext.len() == 0 {
        assert(m =~= msgs);
        assert(links_of(ext) =~= Seq::<Link>::empty());
    } else {
        let n = msgs.len() as int;
        lemma_no_successor_from(msgs, f, f.msg + 1);
        assert forall|k: int| f.msg + 1 <= k < n implies !is_successor(m, f, k) by {
            assert(m[k] == msgs[k]);
            assert(!is_successor(msgs, f, k));
        }
        assert(m[n] == ext[0]);
        assert(is_chain_kind(ext[0].kind));
        lemma_first_successor_at(m, f, f.msg + 1, n);
        let l = ext[0].link;
        assert(l.msg == n);
        let msgs2 = msgs.push(ext[0]);
        let ext2 = ext.drop_first();
        assert(msgs2 + ext2 =~= m);
        assert forall|i: int| 0 <= i < ext2.len() implies is_chain_kind((#[trigger] ext2[i]).kind)
            && ext2[i].previous == Some(
            if i == 0 {
                l
            } else {
                ext2[i - 1].link
            },
        ) by {
            assert(ext2[i] == ext[i + 1]);
        }
        assert(resolves(msgs2, l));
        lemma_poll_after_publishes(msgs2, ext2, l);
        assert(links_of(ext) =~= seq![l] + links_of(ext2));
    }
}

/// The in-memory ledger: an append-only sequence of messages, addressed by
/// position. It is the transport the protocol runs over in one process, shared
/// by the author and its subscribers. It stores masked halves as they are;
/// who may read them is decided by the subscriber's reading rule, from the
/// keyload in effect at each packet.
pub struct MemoryTransport {
    messages: Vec<Envelope>,
}

impl View for MemoryTransport {
    type V = Seq<Envelope>;

    closed spec fn view(&self) -> Seq<Envelope> {
        self.messages@
    }
}

impl MemoryTransport {
    pub open spec fn wf(&self) -> bool {
        ledger_wf(self@)
    }

    /// An empty ledger.
    pub fn new() -> (r: MemoryTransport)
        ensures
            r@.len() == 0,
            r.wf(),
    {
        MemoryTransport { messages: Vec::new() }
    }

    /// The number of messages published.
    pub fn len(&self) -> (r: usize)
        ensures
            r == self@.len(),
    {
        self.messages.len()
    }

    /// Whether a message is stored at `l`.
    pub fn contains(&self, l: Link) -> (r: bool)
        ensures
            r == resolves(self@, l),
    {
        l.msg < self.messages.len() && self.messages[l.msg].link == l
    }

    /// Publishes a message in `channel`; its back-link must resolve. The
    /// message gets the next position, and its link is returned.
    pub fn publish(&mut self, channel: u64, env: Envelope) -> (r: Result<Link, ChannelError>)
        requires
            old(self).wf(),
        ensures
            final(self).wf(),
            match r {
                Ok(l) => {
                    &&& env.previous matches Some(p) ==> resolves(old(self)@, p)
                    &&& l == Link { channel, msg: old(self)@.len() as usize }
                    &&& appended(old(self)@, final(self)@)
                    &&& final(self)@.last() == (Envelope { link: l, ..env })
                },
                Err(e) => {
                    &&& e == ChannelError::NotFound
                    &&& env.previous matches Some(p) && !resolves(old(self)@, p)
                    &&& final(self)@ == old(self)@
                },
            },
    {
        if let Some(p) = env.previous {
            if !self.contains(p) {
                return Err(ChannelError::NotFound);
            }
        }
        let l = Link { channel, msg: self.messages.len() };
        let mut env = env;
        env.link = l;
        self.messages.push(env);
        Ok(l)
    }

    /// The message stored at `l`, if any.
    pub fn fetch(&self, l: Link) -> (r: Option<&Envelope>)
        ensures
            match r {
                Some(e) => resolves(self@, l) && *e == self@[l.msg as int],
                None => !resolves(self@, l),
            },
    {
        if self.contains(l) {
            Some(&self.messages[l.msg])
        } else {
            None
        }
    }

    /// The message that follows `f` in the chain: the first keyload, signed or
    /// tagged message published with back-link `f`.
    pub fn find_successor(&self, f: Link) -> (r: Option<Link>)
        requires
            self.wf(),
        ensures
            match next_in_chain(self@, f) {
                None => r is None,
                Some(j) => r == Some(self@[j].link) && j == self@[j].link.msg,
            },
    {
        if f.msg >= self.messages.len() {
            return None;
        }
        let mut j: usize = f.msg + 1;
        while j < self.messages.len()
            invariant
                self.wf(),
                f.msg < j <= self@.len(),
                next_in_chain(self@, f) == first_successor_from(self@, f, j as int),
            decreases self@.len() - j,
        {
            let e = &self.messages[j];
            if e.previous == Some(f) && (e.kind == ContentType::Keyload || e.kind
                == ContentType::Signed || e.kind == ContentType::Tagged) {
                return Some(e.link);
            }
            j = j + 1;
        }
        None
    }
}

} // verus!
