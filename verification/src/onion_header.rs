//! The fixed-size per-packet onion metadata: version, session identifier,
//! layer nonce and authentication tag, on a 52-byte wire layout.
use vstd::prelude::*;

use crate::bytes::{
    append_bytes, lemma_u32_be_round_trip, push_u32_be, read_u32_be, subvec, u32_be,
    u32_from_bytes,
};
use crate::{Error, PROTOCOL_VERSION};

verus! {

/// Wire size of the onion header in bytes.
pub const ONION_HEADER_LEN: usize = 52;

/// Mathematical model of an onion header.
#[verifier::ext_equal]
pub ghost struct OnionHeaderModel {
    pub version: u8,
    pub session_id: u32,
    pub nonce: Seq<u8>,
    pub mac: Seq<u8>,
}

/// A header whose nonce and tag have their fixed wire sizes.
pub open spec fn oh_wf(h: OnionHeaderModel) -> bool {
    &&& h.nonce.len() == 12
    &&& h.mac.len() == 32
}

/// The 52-byte wire encoding: version, three reserved zero bytes, big-endian
/// session identifier, nonce, then the authentication tag.
pub open spec fn oh_bytes(h: OnionHeaderModel) -> Seq<u8> {
    seq![h.version, 0u8, 0u8, 0u8] + u32_be(h.session_id) + h.nonce + h.mac
}

/// Parsing of the wire encoding: fails exactly when fewer than 52 bytes are
/// present. Reserved bytes are skipped; trailing bytes are ignored.
pub open spec fn oh_parse(b: Seq<u8>) -> Option<OnionHeaderModel> {
    if b.len() < 52 {
        None
    } else {
        Some(
            OnionHeaderModel {
                version: b[0],
                session_id: u32_from_bytes(b[4], b[5], b[6], b[7]),
                nonce: b.subrange(8, 20),
                mac: b.subrange(20, 52),
            },
        )
    }
}

/// Law: serializing any well-formed onion header and parsing the bytes back
/// yields the same header.
pub proof fn lemma_onion_header_round_trip(h: OnionHeaderModel)
    requires
        oh_wf(h),
    ensures
        oh_parse(oh_bytes(h)) == Some(h),
{
    let b = oh_bytes(h);
    assert(b.len() == 52);
    lemma_u32_be_round_trip(h.session_id);
    let p = oh_parse(b).unwrap();
    assert(p.nonce =~= h.nonce);
    assert(p.mac =~= h.mac);
    assert(p =~~= h);
}

/// The per-packet onion header. Built by the sender, read at every hop. The
/// version byte must equal the supported protocol version for a relay or
/// receiver to process the packet. The tag field is present in the wire
/// format but carries a zero placeholder and is not verified on receipt — a
/// documented gap of the protocol as specified today.
pub struct OnionHeader {
    pub version: u8,
    pub session_id: u32,
    pub nonce: Vec<u8>,
    pub mac: Vec<u8>,
}

impl View for OnionHeader {
    type V = OnionHeaderModel;

    open spec fn view(&self) -> OnionHeaderModel {
        OnionHeaderModel {
            version: self.version,
            session_id: self.session_id,
            nonce: self.nonce@,
            mac: self.mac@,
        }
    }
}

impl OnionHeader {
    /// Builds a header for a fresh packet: the supported protocol version, a
    /// zero placeholder tag, and the given outermost-layer nonce.
    pub fn new(session_id: u32, nonce: Vec<u8>) -> (r: OnionHeader)
        requires
            nonce@.len() == 12,
        ensures
            r@ == (OnionHeaderModel {
                version: PROTOCOL_VERSION,
                session_id,
                nonce: nonce@,
                mac: Seq::new(32, |i: int| 0u8),
            }),
    {
        let mut mac: Vec<u8> = Vec::new();
        let mut i: usize = 0;
        while i < 32
            invariant
                i <= 32,
                mac@ =~= Seq::new(i as nat, |j: int| 0u8),
            decreases 32 - i,
        {
            mac.push(0u8);
            i = i + 1;
            assert(mac@ =~= Seq::new(i as nat, |j: int| 0u8));
        }
        let r = OnionHeader { version: PROTOCOL_VERSION, session_id, nonce, mac };
        assert(r@ =~~= (OnionHeaderModel {
            version: PROTOCOL_VERSION,
            session_id,
            nonce: nonce@,
            mac: Seq::new(32, |i: int| 0u8),
        }));
        r
    }

    /// Replaces the stored authentication tag.
    pub fn set_mac(&mut self, mac: Vec<u8>)
        requires
            mac@.len() == 32,
        ensures
            final(self)@ == (OnionHeaderModel { mac: mac@, ..old(self)@ }),
    {
        let ghost h0: OnionHeaderModel = self@;
        self.mac = mac;
        assert(self@ =~~= (OnionHeaderModel { mac: mac@, ..h0 }));
    }

    /// Serializes the header exactly as `oh_bytes` describes.
    pub fn to_bytes(&self) -> (r: Vec<u8>)
        ensures
            r@ == oh_bytes(self@),
    {
        let mut out: Vec<u8> = Vec::new();
        out.push(self.version);
        out.push(0u8);
        out.push(0u8);
        out.push(0u8);
        push_u32_be(&mut out, self.session_id);
        assert(out@ =~= seq![self.version, 0u8, 0u8, 0u8] + u32_be(self.session_id));
        append_bytes(&mut out, &self.nonce);
        append_bytes(&mut out, &self.mac);
        assert(out@ =~= oh_bytes(self@));
        out
    }

    /// Parses a header from the start of `bytes`, exactly as `oh_parse`
    /// describes; truncated input is a `ParseError`.
    pub fn from_bytes(bytes: &Vec<u8>) -> (r: Result<OnionHeader, Error>)
        ensures
            match oh_parse(bytes@) {
                Some(h) => r matches Ok(p) && p@ == h,
                None => r == Err::<OnionHeader, Error>(Error::ParseError),
            },
    {
        if bytes.len() < 52 {
            return Err(Error::ParseError);
        }
        let version = bytes[0];
        let session_id = read_u32_be(bytes[4], bytes[5], bytes[6], bytes[7]);
        let nonce = subvec(bytes, 8, 20);
        let mac = subvec(bytes, 20, 52);
        let h = OnionHeader { version, session_id, nonce, mac };
        assert(h@ =~~= oh_parse(bytes@).unwrap());
        Ok(h)
    }
}

} // verus!
