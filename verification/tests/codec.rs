//! Wire-codec behaviour: round trips, truncation, and the segment pointer.
use hornet_onion::onion_header::OnionHeader;
use hornet_onion::srh::SRv6Header;
use hornet_onion::Error;

fn sid(last: u8) -> Vec<u8> {
    let mut v = vec![0x20, 0x01, 0x0d, 0xb8, 0, 0, 0, 0, 0, 0, 0, 0, 0, 0, 0];
    v.push(last);
    v
}

#[test]
fn srh_round_trip_three_segments() {
    let h = SRv6Header::new(vec![sid(1), sid(2), sid(3)]).unwrap();
    assert_eq!(h.next_header, 43);
    assert_eq!(h.routing_type, 4);
    assert_eq!(h.segments_left, 2);
    assert_eq!(h.last_entry, 2);
    assert_eq!(h.hdr_ext_len, 7);
    let bytes = h.to_bytes();
    assert_eq!(bytes.len(), 8 + 3 * 16);
    let p = SRv6Header::from_bytes(&bytes).unwrap();
    assert_eq!(p.next_header, h.next_header);
    assert_eq!(p.hdr_ext_len, h.hdr_ext_len);
    assert_eq!(p.routing_type, h.routing_type);
    assert_eq!(p.segments_left, h.segments_left);
    assert_eq!(p.last_entry, h.last_entry);
    assert_eq!(p.flags, h.flags);
    assert_eq!(p.tag, h.tag);
    assert_eq!(p.segment_list, h.segment_list);
}

#[test]
fn srh_round_trip_hundred_segments() {
    let mut segments: Vec<Vec<u8>> = Vec::new();
    for i in 0..100u8 {
        let mut s = vec![0u8; 16];
        s[0] = 0xfd;
        s[15] = i;
        segments.push(s);
    }
    let h = SRv6Header::new(segments.clone()).unwrap();
    assert_eq!(h.last_entry, 99);
    assert_eq!(h.segments_left, 99);
    let bytes = h.to_bytes();
    assert_eq!(bytes.len(), 8 + 100 * 16);
    let p = SRv6Header::from_bytes(&bytes).unwrap();
    assert_eq!(p.segment_list, segments);
    assert_eq!(p.segments_left, 99);
    assert_eq!(p.last_entry, 99);
}

#[test]
fn srh_round_trip_single_segment() {
    let h = SRv6Header::new(vec![sid(9)]).unwrap();
    assert_eq!(h.segments_left, 0);
    let p = SRv6Header::from_bytes(&h.to_bytes()).unwrap();
    assert_eq!(p.segment_list, vec![sid(9)]);
}

#[test]
fn srh_rejects_empty_path() {
    assert!(matches!(SRv6Header::new(vec![]), Err(Error::ProtocolError)));
}

#[test]
fn srh_parse_truncated_fixed_fields() {
    for n in 0..8usize {
        let bytes = vec![0u8; n];
        assert!(matches!(
            SRv6Header::from_bytes(&bytes),
            Err(Error::ParseError)
        ));
    }
}

#[test]
fn srh_parse_truncated_segment_list() {
    let h = SRv6Header::new(vec![sid(1), sid(2)]).unwrap();
    let mut bytes = h.to_bytes();
    bytes.pop();
    assert!(matches!(
        SRv6Header::from_bytes(&bytes),
        Err(Error::ParseError)
    ));
}

#[test]
fn advance_pointer_monotonic_and_exhausts() {
    let mut h = SRv6Header::new(vec![sid(1), sid(2), sid(3)]).unwrap();
    assert_eq!(h.get_current_sid(), Some(sid(1)));
    let mut previous = h.segments_left;
    assert_eq!(h.advance_segment(), Some(sid(2)));
    assert!(h.segments_left <= previous);
    previous = h.segments_left;
    assert_eq!(h.advance_segment(), Some(sid(3)));
    assert!(h.segments_left <= previous);
    assert_eq!(h.segments_left, 0);
    // The pointer is spent: every further advance is a no-op reporting
    // nothing.
    for _ in 0..3 {
        assert_eq!(h.advance_segment(), None);
        assert_eq!(h.segments_left, 0);
        assert_eq!(h.last_entry, 2);
    }
}

#[test]
fn onion_header_round_trip() {
    let nonce: Vec<u8> = (0..12u8).collect();
    let mut h = OnionHeader::new(0xdead_beef, nonce.clone());
    assert_eq!(h.version, 1);
    assert_eq!(h.mac, vec![0u8; 32]);
    h.set_mac(vec![0xabu8; 32]);
    let bytes = h.to_bytes();
    assert_eq!(bytes.len(), 52);
    assert_eq!(&bytes[1..4], &[0u8, 0, 0]);
    let p = OnionHeader::from_bytes(&bytes).unwrap();
    assert_eq!(p.version, 1);
    assert_eq!(p.session_id, 0xdead_beef);
    assert_eq!(p.nonce, nonce);
    assert_eq!(p.mac, vec![0xabu8; 32]);
}

#[test]
fn onion_header_parse_truncated() {
    for n in [0usize, 1, 51] {
        let bytes = vec![0u8; n];
        assert!(matches!(
            OnionHeader::from_bytes(&bytes),
            Err(Error::ParseError)
        ));
    }
}
