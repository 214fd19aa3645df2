//! The segment-routing extension header: construction, wire codec, and the
//! countdown pointer over the segment list.
use vstd::prelude::*;

use crate::bytes::{
    append_bytes, lemma_u16_be_round_trip, push_u16_be, read_u16_be, subvec, u16_be,
    u16_from_bytes, vecs_view,
};
use crate::Error;

verus! {

/// Mathematical model of a segment-routing header: the fixed fields plus the
/// segment list as a sequence of 16-byte addresses.
#[verifier::ext_equal]
pub ghost struct SrhModel {
    pub next_header: u8,
    pub hdr_ext_len: u8,
    pub routing_type: u8,
    pub segments_left: u8,
    pub last_entry: u8,
    pub flags: u8,
    pub tag: u16,
    pub segment_list: Seq<Seq<u8>>,
}

/// Every segment is a 16-byte address.
pub open spec fn segs_wf(ss: Seq<Seq<u8>>) -> bool {
    forall|i: int| 0 <= i < ss.len() ==> (#[trigger] ss[i]).len() == 16
}

/// The segment list flattened into wire bytes, in path order.
pub open spec fn segs_bytes(ss: Seq<Seq<u8>>) -> Seq<u8>
    decreases ss.len(),
{
    if ss.len() == 0 {
        Seq::empty()
    } else {
        ss[0] + segs_bytes(ss.drop_first())
    }
}

pub proof fn lemma_segs_bytes_push(ss: Seq<Seq<u8>>, x: Seq<u8>)
    ensures
        segs_bytes(ss.push(x)) == segs_bytes(ss) + x,
    decreases ss.len(),
{
    if ss.len() == 0 {
        assert(ss.push(x).len() == 1);
        assert(ss.push(x)[0] == x);
        assert(ss.push(x).drop_first() =~= Seq::<Seq<u8>>::empty());
        assert(segs_bytes(ss.push(x)) == x + segs_bytes(Seq::<Seq<u8>>::empty()));
        assert(segs_bytes(ss.push(x)) =~= segs_bytes(ss) + x);
    } else {
        assert(ss.push(x).drop_first() =~= ss.drop_first().push(x));
        lemma_segs_bytes_push(ss.drop_first(), x);
        assert(segs_bytes(ss.push(x)) =~= segs_bytes(ss) + x);
    }
}

pub proof fn lemma_segs_bytes_len(ss: Seq<Seq<u8>>)
    requires
        segs_wf(ss),
    ensures
        segs_bytes(ss).len() == 16 * ss.len(),
    decreases ss.len(),
{
    if ss.len() > 0 {
        assert(forall|i: int|
            0 <= i < ss.drop_first().len() ==> #[trigger] ss.drop_first()[i] == ss[i + 1]);
        lemma_segs_bytes_len(ss.drop_first());
    }
}

pub proof fn lemma_segs_bytes_index(ss: Seq<Seq<u8>>, i: int)
    requires
        segs_wf(ss),
        0 <= i < ss.len(),
    ensures
        segs_bytes(ss).subrange(16 * i, 16 * i + 16) == ss[i],
    decreases i,
{
    lemma_segs_bytes_len(ss);
    if i == 0 {
        assert(segs_bytes(ss).subrange(0, 16) =~= ss[0]);
    } else {
        assert(forall|j: int|
            0 <= j < ss.drop_first().len() ==> #[trigger] ss.drop_first()[j] == ss[j + 1]);
        lemma_segs_bytes_index(ss.drop_first(), i - 1);
        lemma_segs_bytes_len(ss.drop_first());
        assert(segs_bytes(ss).subrange(16 * i, 16 * i + 16) =~= segs_bytes(
            ss.drop_first(),
        ).subrange(16 * (i - 1), 16 * (i - 1) + 16));
    }
}

/// The full wire encoding: six fixed bytes, the big-endian tag, then the
/// segment addresses in path order.
pub open spec fn srh_bytes(h: SrhModel) -> Seq<u8> {
    seq![
        h.next_header,
        h.hdr_ext_len,
        h.routing_type,
        h.segments_left,
        h.last_entry,
        h.flags,
    ] + u16_be(h.tag) + segs_bytes(h.segment_list)
}

/// Parsing of the wire encoding. It fails exactly when fewer than 8 bytes are
/// present, or when the declared segment count does not fit in the input.
/// Trailing bytes beyond the declared segment list are ignored.
pub open spec fn srh_parse(b: Seq<u8>) -> Option<SrhModel> {
    if b.len() < 8 {
        None
    } else {
        let count = b[4] as int + 1;
        if b.len() < 8 + count * 16 {
            None
        } else {
            Some(
                SrhModel {
                    next_header: b[0],
                    hdr_ext_len: b[1],
                    routing_type: b[2],
                    segments_left: b[3],
                    last_entry: b[4],
                    flags: b[5],
                    tag: u16_from_bytes(b[6], b[7]),
                    segment_list: Seq::new(
                        count as nat,
                        |i: int| b.subrange(8 + 16 * i, 8 + 16 * i + 16),
                    ),
                },
            )
        }
    }
}

/// A header whose declared `last_entry` matches its segment list, with
/// 16-byte addresses: exactly the headers the wire codec round-trips.
pub open spec fn srh_wf_wire(h: SrhModel) -> bool {
    &&& h.segment_list.len() == h.last_entry as int + 1
    &&& segs_wf(h.segment_list)
}

/// The segment lists a header can be constructed from: at least one hop,
/// few enough that `last_entry` and `hdr_ext_len` fit their byte fields.
pub open spec fn srh_new_ok(ss: Seq<Seq<u8>>) -> bool {
    &&& 1 <= ss.len() <= 127
    &&& segs_wf(ss)
}

/// The header the constructor builds from a segment list.
pub open spec fn srh_new_spec(ss: Seq<Seq<u8>>) -> SrhModel {
    SrhModel {
        next_header: 43,
        hdr_ext_len: (2 * ss.len() + 1) as u8,
        routing_type: 4,
        segments_left: (ss.len() - 1) as u8,
        last_entry: (ss.len() - 1) as u8,
        flags: 0,
        tag: 0,
        segment_list: ss,
    }
}

/// The address the countdown pointer currently selects, if it is in range.
pub open spec fn srh_current(h: SrhModel) -> Option<Seq<u8>> {
    let idx = h.last_entry as int - h.segments_left as int;
    if 0 <= idx < h.segment_list.len() {
        Some(h.segment_list[idx])
    } else {
        None
    }
}

/// One pointer advance: a decrement, or a no-op once the pointer is spent.
pub open spec fn srh_advance(h: SrhModel) -> SrhModel {
    if h.segments_left == 0 {
        h
    } else {
        SrhModel { segments_left: (h.segments_left - 1) as u8, ..h }
    }
}

/// What one advance call reports: nothing once spent, else the new current
/// segment.
pub open spec fn srh_advance_result(h: SrhModel) -> Option<Seq<u8>> {
    if h.segments_left == 0 {
        None
    } else {
        srh_current(srh_advance(h))
    }
}

/// The header after `k` advance calls.
pub open spec fn srh_advanced(h: SrhModel, k: nat) -> SrhModel
    decreases k,
{
    if k == 0 {
        h
    } else {
        srh_advance(srh_advanced(h, (k - 1) as nat))
    }
}

/// Law: an advance never increases the pointer.
pub proof fn lemma_advance_monotonic(h: SrhModel)
    ensures
        srh_advance(h).segments_left <= h.segments_left,
{
}

/// Law: after `segments_left` advances the pointer is spent, and every
/// further advance is a no-op that reports nothing.
pub proof fn lemma_advance_exhausts(h: SrhModel, k: nat)
    ensures
        srh_advanced(h, k).segments_left == if k >= h.segments_left {
            0int
        } else {
            h.segments_left - k
        },
        k >= h.segments_left ==> srh_advanced(h, k) == srh_advanced(h, h.segments_left as nat),
        k >= h.segments_left ==> srh_advance_result(srh_advanced(h, k)) is None,
    decreases k,
{
    if k > 0 {
        lemma_advance_exhausts(h, (k - 1) as nat);
    }
}

/// Law: serializing any well-formed header and parsing the bytes back yields
/// the same header.
pub proof fn lemma_srh_round_trip(h: SrhModel)
    requires
        srh_wf_wire(h),
    ensures
        srh_parse(srh_bytes(h)) == Some(h),
{
    let b = srh_bytes(h);
    let count = h.last_entry as int + 1;
    lemma_segs_bytes_len(h.segment_list);
    assert(b.len() == 8 + count * 16);
    lemma_u16_be_round_trip(h.tag);
    assert(b[6] == u16_be(h.tag)[0] && b[7] == u16_be(h.tag)[1]);
    let p = srh_parse(b).unwrap();
    assert forall|i: int| 0 <= i < count implies p.segment_list[i] == h.segment_list[i] by {
        lemma_segs_bytes_index(h.segment_list, i);
        assert(b.subrange(8 + 16 * i, 8 + 16 * i + 16) =~= segs_bytes(h.segment_list).subrange(
            16 * i,
            16 * i + 16,
        ));
    }
    assert(p.segment_list =~= h.segment_list);
    assert(p =~~= h);
}

/// The segment-routing extension header, mutated in place by each relay.
pub struct SRv6Header {
    pub next_header: u8,
    pub hdr_ext_len: u8,
    pub routing_type: u8,
    pub segments_left: u8,
    pub last_entry: u8,
    pub flags: u8,
    pub tag: u16,
    pub segment_list: Vec<Vec<u8>>,
}

impl View for SRv6Header {
    type V = SrhModel;

    open spec fn view(&self) -> SrhModel {
        SrhModel {
            next_header: self.next_header,
            hdr_ext_len: self.hdr_ext_len,
            routing_type: self.routing_type,
            segments_left: self.segments_left,
            last_entry: self.last_entry,
            flags: self.flags,
            tag: self.tag,
            segment_list: vecs_view(self.segment_list),
        }
    }
}

impl SRv6Header {
    /// Builds the header for a freshly chosen path: the pointer starts at
    /// `last_entry`, and the extension length counts 8-octet units.
    /// Rejects an empty path and one too long for the byte-sized fields.
    pub fn new(segment_list: Vec<Vec<u8>>) -> (r: Result<SRv6Header, Error>)
        ensures
            srh_new_ok(vecs_view(segment_list)) ==> (r matches Ok(h) && h@ == srh_new_spec(
                vecs_view(segment_list),
            )),
            !srh_new_ok(vecs_view(segment_list)) ==> r == Err::<SRv6Header, Error>(
                Error::ProtocolError,
            ),
    {
        let n = segment_list.len();
        if n == 0 || n > 127 {
            return Err(Error::ProtocolError);
        }
        let mut i: usize = 0;
        while i < n
            invariant
                i <= n,
                n == segment_list@.len(),
                forall|j: int| 0 <= j < i ==> (#[trigger] vecs_view(segment_list)[j]).len() == 16,
            decreases n - i,
        {
            if segment_list[i].len() != 16 {
                proof {
                    assert((vecs_view(segment_list)[i as int]).len() != 16);
                }
                return Err(Error::ProtocolError);
            }
            i = i + 1;
        }
        let last_entry = (n - 1) as u8;
        let h = SRv6Header {
            next_header: 43,
            hdr_ext_len: (2 * n + 1) as u8,
            routing_type: 4,
            segments_left: last_entry,
            last_entry,
            flags: 0,
            tag: 0,
            segment_list,
        };
        assert(h@ =~~= srh_new_spec(vecs_view(segment_list)));
        Ok(h)
    }

    /// Serializes the header exactly as `srh_bytes` describes.
    pub fn to_bytes(&self) -> (r: Vec<u8>)
        ensures
            r@ == srh_bytes(self@),
    {
        let mut out: Vec<u8> = Vec::new();
        out.push(self.next_header);
        out.push(self.hdr_ext_len);
        out.push(self.routing_type);
        out.push(self.segments_left);
        out.push(self.last_entry);
        out.push(self.flags);
        push_u16_be(&mut out, self.tag);
        let ghost fixed: Seq<u8> = out@;
        assert(fixed =~= seq![
            self.next_header,
            self.hdr_ext_len,
            self.routing_type,
            self.segments_left,
            self.last_entry,
            self.flags,
        ] + u16_be(self.tag));
        let ghost ss: Seq<Seq<u8>> = vecs_view(self.segment_list);
        let mut i: usize = 0;
        while i < self.segment_list.len()
            invariant
                i <= ss.len(),
                ss == vecs_view(self.segment_list),
                out@ == fixed + segs_bytes(ss.take(i as int)),
            decreases ss.len() - i,
        {
            append_bytes(&mut out, &self.segment_list[i]);
            proof {
                lemma_segs_bytes_push(ss.take(i as int), ss[i as int]);
                assert(ss.take(i as int + 1) =~= ss.take(i as int).push(ss[i as int]));
            }
            i = i + 1;
        }
        assert(ss.take(ss.len() as int) =~= ss);
        out
    }

    /// Parses a header from the start of `bytes`, exactly as `srh_parse`
    /// describes; truncated input is a `ParseError`.
    pub fn from_bytes(bytes: &Vec<u8>) -> (r: Result<SRv6Header, Error>)
        ensures
            match srh_parse(bytes@) {
                Some(h) => r matches Ok(p) && p@ == h,
                None => r == Err::<SRv6Header, Error>(Error::ParseError),
            },
    {
        if bytes.len() < 8 {
            return Err(Error::ParseError);
        }
        let last_entry = bytes[4];
        let count: usize = last_entry as usize + 1;
        let expected: usize = 8 + count * 16;
        if bytes.len() < expected {
            return Err(Error::ParseError);
        }
        let mut segs: Vec<Vec<u8>> = Vec::new();
        let mut i: usize = 0;
        while i < count
            invariant
                i <= count,
                count <= 256,
                8 + count * 16 <= bytes@.len(),
                segs@.len() == i,
                forall|j: int|
                    0 <= j < i ==> #[trigger] segs@[j]@ == bytes@.subrange(
                        8 + 16 * j,
                        8 + 16 * j + 16,
                    ),
            decreases count - i,
        {
            let seg = subvec(bytes, 8 + 16 * i, 8 + 16 * i + 16);
            segs.push(seg);
            i = i + 1;
        }
        let h = SRv6Header {
            next_header: bytes[0],
            hdr_ext_len: bytes[1],
            routing_type: bytes[2],
            segments_left: bytes[3],
            last_entry,
            flags: bytes[5],
            tag: read_u16_be(bytes[6], bytes[7]),
            segment_list: segs,
        };
        proof {
            let parsed = srh_parse(bytes@).unwrap();
            assert(h@.segment_list =~= parsed.segment_list);
            assert(h@ =~~= parsed);
        }
        Ok(h)
    }

    /// The length in bytes of this header on the wire.
    pub fn wire_len(&self) -> (r: usize)
        requires
            self@.segment_list.len() <= 256,
        ensures
            r == 8 + 16 * self@.segment_list.len(),
    {
        8 + 16 * self.segment_list.len()
    }

    /// The address the pointer currently selects, or nothing when the pointer
    /// is out of range.
    pub fn get_current_sid(&self) -> (r: Option<Vec<u8>>)
        ensures
            match r {
                Some(s) => srh_current(self@) == Some(s@),
                None => srh_current(self@) is None,
            },
    {
        if self.segments_left > self.last_entry {
            return None;
        }
        let idx = (self.last_entry - self.segments_left) as usize;
        if idx < self.segment_list.len() {
            let mut s: Vec<u8> = Vec::new();
            append_bytes(&mut s, &self.segment_list[idx]);
            Some(s)
        } else {
            None
        }
    }

    /// Decrements the pointer and reports the new current segment; once the
    /// pointer is spent this is a no-op that reports nothing. The pointer
    /// never increases.
    pub fn advance_segment(&mut self) -> (r: Option<Vec<u8>>)
        ensures
            final(self)@ == srh_advance(old(self)@),
            final(self)@.segments_left <= old(self)@.segments_left,
            match r {
                Some(s) => srh_advance_result(old(self)@) == Some(s@),
                None => srh_advance_result(old(self)@) is None,
            },
    {
        let ghost h0: SrhModel = self@;
        if self.segments_left == 0 {
            return None;
        }
        self.segments_left = self.segments_left - 1;
        assert(self@ =~~= srh_advance(h0));
        self.get_current_sid()
    }
}

} // verus!
