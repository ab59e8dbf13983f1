//! Packet payloads and the codec between a payload and its two byte halves.
use vstd::prelude::*;
use crate::link::ChannelError;

verus! {

/// Marker byte in front of a present payload half.
pub const PRESENT: u8 = 1;

/// An application payload: a public half that anyone may read and a masked half
/// that only granted subscribers may read. Either half may be absent.
#[derive(Clone, Debug)]
pub struct PacketPayload {
    pub public: Option<Vec<u8>>,
    pub masked: Option<Vec<u8>>,
}

/// The bytes a half is carried as: nothing when absent, else the marker byte
/// followed by the data.
pub open spec fn encode_half_spec(h: Option<Seq<u8>>) -> Seq<u8> {
    match h {
        None => Seq::empty(),
        Some(d) => seq![PRESENT] + d,
    }
}

/// What a byte string carrying a half decodes to; `None` when it is malformed.
pub open spec fn decode_half_spec(b: Seq<u8>) -> Option<Option<Seq<u8>>> {
    if b.len() == 0 {
        Some(None)
    } else if b[0] == PRESENT {
        Some(Some(b.subrange(1, b.len() as int)))
    } else {
        None
    }
}

pub open spec fn opt_view(h: Option<Vec<u8>>) -> Option<Seq<u8>> {
    match h {
        None => None,
        Some(v) => Some(v@),
    }
}

impl PacketPayload {
    pub open spec fn public_view(&self) -> Option<Seq<u8>> {
        opt_view(self.public)
    }

    pub open spec fn masked_view(&self) -> Option<Seq<u8>> {
        opt_view(self.masked)
    }

    /// The payload as its two halves.
    pub open spec fn view(&self) -> PayloadView {
        (self.public_view(), self.masked_view())
    }
}

/// A payload as plain values: its public and its masked half.
pub type PayloadView = (Option<Seq<u8>>, Option<Seq<u8>>);

/// The public and masked bytes a payload is carried as.
pub open spec fn encode_spec(v: PayloadView) -> (Seq<u8>, Seq<u8>) {
    (encode_half_spec(v.0), encode_half_spec(v.1))
}

/// The payload that public and masked bytes carry; `None` when either is
/// malformed.
pub open spec fn decode_spec(public_bytes: Seq<u8>, masked_bytes: Seq<u8>) -> Option<PayloadView> {
    match (decode_half_spec(public_bytes), decode_half_spec(masked_bytes)) {
        (Some(p), Some(m)) => Some((p, m)),
        _ => None,
    }
}

/// Every half decodes back to itself.
pub proof fn lemma_half_round_trip(h: Option<Seq<u8>>)
    ensures
        decode_half_spec(encode_half_spec(h)) == Some(h),
{
    if let Some(d) = h {
        assert((seq![PRESENT] + d).subrange(1, (seq![PRESENT] + d).len() as int) =~= d);
    }
}

/// The bytes of `src` from position `from` on, in a new vector.
pub fn copy_bytes(src: &Vec<u8>, from: usize) -> (r: Vec<u8>)
    requires
        from <= src@.len(),
    ensures
        r@ == src@.subrange(from as int, src@.len() as int),
{
    let mut r: Vec<u8> = Vec::new();
    let mut i: usize = from;
    while i < src.len()
        invariant
            from <= i <= src@.len(),
            r@ == src@.subrange(from as int, i as int),
        decreases src@.len() - i,
    {
        r.push(src[i]);
        i = i + 1;
        assert(r@ =~= src@.subrange(from as int, i as int));
    }
    r
}

/// Encodes one half.
pub fn encode_half(h: &Option<Vec<u8>>) -> (r: Vec<u8>)
    ensures
        r@ == encode_half_spec(opt_view(*h)),
{
    match h {
        None => Vec::new(),
        Some(d) => {
            let mut r: Vec<u8> = Vec::new();
            r.push(PRESENT);
            let mut i: usize = 0;
            while i < d.len()
                invariant
                    i <= d@.len(),
                    r@ == seq![PRESENT] + d@.subrange(0, i as int),
                decreases d@.len() - i,
            {
                r.push(d[i]);
                i = i + 1;
                assert(r@ =~= seq![PRESENT] + d@.subrange(0, i as int));
            }
            assert(d@.subrange(0, d@.len() as int) =~= d@);
            r
        },
    }
}

/// Decodes one half; fails exactly when the bytes are no encoding of a half.
pub fn decode_half(b: &Vec<u8>) -> (r: Result<Option<Vec<u8>>, ChannelError>)
    ensures
        match r {
            Ok(h) => decode_half_spec(b@) == Some(opt_view(h)),
            Err(e) => e == ChannelError::DecodeError && decode_half_spec(b@) is None,
        },
{
    if b.len() == 0 {
        Ok(None)
    } else if b[0] == PRESENT {
        Ok(Some(copy_bytes(b, 1)))
    } else {
        Err(ChannelError::DecodeError)
    }
}

/// Splits a payload into the public and masked bytes a packet carries.
pub fn encode(p: &PacketPayload) -> (r: (Vec<u8>, Vec<u8>))
    ensures
        (r.0@, r.1@) == encode_spec(p.view()),
{
    (encode_half(&p.public), encode_half(&p.masked))
}

/// Joins the public and masked bytes of a packet back into a payload.
pub fn decode(public_bytes: &Vec<u8>, masked_bytes: &Vec<u8>) -> (r: Result<
    PacketPayload,
    ChannelError,
>)
    ensures
        match r {
            Ok(p) => decode_spec(public_bytes@, masked_bytes@) == Some(p.view()),
            Err(e) => e == ChannelError::DecodeError && decode_spec(public_bytes@, masked_bytes@)
                is None,
        },
{
    match decode_half(public_bytes) {
        Err(e) => Err(e),
        Ok(public) => match decode_half(masked_bytes) {
            Err(e) => Err(e),
            Ok(masked) => Ok(PacketPayload { public, masked }),
        },
    }
}

/// Decoding the bytes that a payload is encoded to gives the payload back, for
/// every payload, with either half present or absent.
pub proof fn lemma_round_trip(v: PayloadView)
    ensures
        decode_spec(encode_spec(v).0, encode_spec(v).1) == Some(v),
{
    lemma_half_round_trip(v.0);
    lemma_half_round_trip(v.1);
}

} // verus!
